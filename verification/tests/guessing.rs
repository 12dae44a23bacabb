use kord::guess::{guess, pc_mask_of_notes, pc_mask_of_tones};
use kord::note::{Letter, Note};
use kord::parser::{parse, parse_note};

fn n(letter: Letter, accidental: i8) -> Note {
    Note { letter, accidental }
}

/// The distinct note spellings of a derived tone list, in order of first
/// appearance.
fn note_set(symbol: &str) -> Vec<Note> {
    let tones = parse(symbol).unwrap().derive().unwrap();
    let mut notes: Vec<Note> = Vec::new();
    for t in tones {
        if !notes.iter().any(|x| x.same_pitch_class(&t.note)) {
            notes.push(t.note);
        }
    }
    notes
}

#[test]
fn test_guess() {
    let notes = vec![
        parse_note("C").unwrap(),
        parse_note("E").unwrap(),
        parse_note("G").unwrap(),
    ];
    let candidates = guess(&notes);
    assert!(!candidates.is_empty());
    for c in &candidates {
        assert!(!c.name().is_empty());
    }
}

#[test]
fn test_guess_top_candidate_is_plain_c_major() {
    let notes = vec![n(Letter::C, 0), n(Letter::E, 0), n(Letter::G, 0)];
    let candidates = guess(&notes);
    assert!(!candidates.is_empty());
    let top = &candidates[0];
    assert_eq!(top.root, n(Letter::C, 0));
    assert!(top.modifiers.is_empty());
    assert!(top.extensions.is_empty());
    assert!(top.slash.is_none());
    assert_eq!(top.inversion, 0);
    assert!(!top.crunch);
}

#[test]
fn test_guess_results_match_input_pitch_classes() {
    let notes = vec![n(Letter::C, 0), n(Letter::E, -1), n(Letter::G, 0)];
    let mask = pc_mask_of_notes(&notes);
    let candidates = guess(&notes);
    assert!(!candidates.is_empty());
    for c in &candidates {
        let tones = c.derive().unwrap();
        assert_eq!(pc_mask_of_tones(&tones), mask);
    }
}

#[test]
fn test_guess_results_are_ordered_by_simplicity() {
    let notes = vec![n(Letter::C, 0), n(Letter::E, 0), n(Letter::G, 0)];
    let candidates = guess(&notes);
    let mut last = 0usize;
    for c in &candidates {
        let size = c.modifiers.len() + c.extensions.len();
        assert!(size >= last);
        last = size;
    }
}

#[test]
fn test_guess_inverse_on_corpus() {
    // For every symbol of the corpus, guessing from its pitch classes finds
    // a chord with exactly those pitch classes.
    for symbol in [
        "C", "Cm", "C7", "Cm7", "Cmaj7", "Cdim", "Caug", "Csus4", "C9", "Cm7b5", "F#m7", "Bb7",
        "Eb", "Asus2",
    ] {
        let notes = note_set(symbol);
        let mask = pc_mask_of_notes(&notes);
        let candidates = guess(&notes);
        assert!(!candidates.is_empty(), "no candidate for {}", symbol);
        for c in &candidates {
            let tones = c.derive().unwrap();
            assert_eq!(pc_mask_of_tones(&tones), mask, "wrong pitch set for {}", symbol);
        }
    }
}

#[test]
fn test_guess_unmatchable_input_yields_empty() {
    // Two pitch classes a semitone apart: every candidate carries at least
    // three distinct pitch classes, so nothing matches and nothing is
    // invented.
    let notes = vec![n(Letter::C, 0), n(Letter::D, -1)];
    assert!(guess(&notes).is_empty());
}

#[test]
fn test_pitch_class_masks() {
    assert_eq!(pc_mask_of_notes(&vec![n(Letter::C, 0)]), 1);
    // C, E and G sit at pitch classes 0, 4 and 7.
    assert_eq!(
        pc_mask_of_notes(&vec![n(Letter::C, 0), n(Letter::E, 0), n(Letter::G, 0)]),
        (1 << 0) | (1 << 4) | (1 << 7)
    );
    // B sharp and D double-flat are enharmonic spellings of C.
    assert_eq!(
        pc_mask_of_notes(&vec![n(Letter::B, 1), n(Letter::D, -2)]),
        1
    );
}
