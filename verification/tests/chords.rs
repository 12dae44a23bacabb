use kord::chord::{Chord, DerivationError};
use kord::modifier::{Degree, Extension, HasIsDominant, Modifier};
use kord::note::{Letter, Note, Tone};
use kord::octave::{HasOctave, Octave, RangeError};
use kord::parser::{parse, parse_note, ParseError};

fn n(letter: Letter, accidental: i8) -> Note {
    Note { letter, accidental }
}

fn t(letter: Letter, accidental: i8, octave: Octave) -> Tone {
    Tone { note: n(letter, accidental), octave }
}

#[test]
fn test_describe() {
    // The full grammar in one symbol: root, modifiers, octave, inversion,
    // crunch.
    let chord = parse("Cmaj7b9@3^2#").unwrap();
    assert_eq!(chord.root, n(Letter::C, 0));
    assert_eq!(chord.octave, Octave::Three);
    assert_eq!(chord.inversion, 2);
    assert!(chord.crunch);
    assert!(chord.modifiers.contains(&Modifier::Major7));
    assert!(chord.modifiers.contains(&Modifier::Flat9));

    let tones = chord.derive().unwrap();
    assert_eq!(
        tones,
        vec![
            t(Letter::G, 0, Octave::Three),
            t(Letter::B, 0, Octave::Three),
            t(Letter::D, -1, Octave::Three),
            t(Letter::C, 0, Octave::Three),
            t(Letter::E, 0, Octave::Three),
        ]
    );
    assert!(!chord.name().is_empty());
}

#[test]
fn test_parse_is_deterministic() {
    for s in ["C", "Cm7b5", "Cmaj7b9@3^2#", "F#m7/B@5^1"] {
        let a = parse(s).unwrap();
        let b = parse(s).unwrap();
        assert_eq!(a, b);
    }
}

#[test]
fn test_major_triad_default_octave() {
    let tones = parse("C").unwrap().derive().unwrap();
    assert_eq!(
        tones,
        vec![
            t(Letter::C, 0, Octave::Four),
            t(Letter::E, 0, Octave::Four),
            t(Letter::G, 0, Octave::Four),
        ]
    );
}

#[test]
fn test_half_diminished_seventh() {
    let tones = parse("Cm7b5").unwrap().derive().unwrap();
    assert_eq!(
        tones,
        vec![
            t(Letter::C, 0, Octave::Four),
            t(Letter::E, -1, Octave::Four),
            t(Letter::G, -1, Octave::Four),
            t(Letter::B, -1, Octave::Four),
        ]
    );
}

#[test]
fn test_first_inversion_low_register() {
    let tones = parse("C@3^1").unwrap().derive().unwrap();
    assert_eq!(
        tones,
        vec![
            t(Letter::E, 0, Octave::Three),
            t(Letter::G, 0, Octave::Three),
            t(Letter::C, 0, Octave::Four),
        ]
    );
}

#[test]
fn test_inversion_overflow_fails() {
    let r = parse("C^5").unwrap().derive();
    assert_eq!(r, Err(DerivationError::InvalidInversion));
}

#[test]
fn test_crunch_flattens_registers() {
    let crunched = parse("C9#").unwrap().derive().unwrap();
    let plain = parse("C9").unwrap().derive().unwrap();
    assert_eq!(crunched.len(), plain.len());
    for (c, p) in crunched.iter().zip(plain.iter()) {
        // Every output tone sits in the root's octave, while the pitch
        // classes match the un-crunched derivation exactly.
        assert_eq!(c.octave, Octave::Four);
        assert_eq!(c.note, p.note);
    }
    assert_eq!(plain.last().unwrap().octave, Octave::Five);
}

#[test]
fn test_slash_note_below_root() {
    let tones = parse("C/G").unwrap().derive().unwrap();
    assert_eq!(
        tones,
        vec![
            t(Letter::G, 0, Octave::Three),
            t(Letter::C, 0, Octave::Four),
            t(Letter::E, 0, Octave::Four),
            t(Letter::G, 0, Octave::Four),
        ]
    );
}

#[test]
fn test_octave_arithmetic_checked() {
    assert_eq!(Octave::Ten.checked_add_i8(1), Err(RangeError::OctaveOverflow));
    assert_eq!(Octave::Zero.checked_sub_i8(1), Err(RangeError::OctaveUnderflow));
    assert_eq!(Octave::Four.checked_add_i8(2), Ok(Octave::Six));
    assert_eq!(Octave::Four.checked_sub_i8(4), Ok(Octave::Zero));
    assert_eq!(Octave::default(), Octave::Four);
    assert_eq!(Octave::Nine.octave(), Octave::Nine);
}

#[test]
fn test_derivation_octave_range_errors() {
    let r = parse("C9@10").unwrap().derive();
    assert_eq!(r, Err(DerivationError::Range(RangeError::OctaveOverflow)));
    let r = parse("C/G@0").unwrap().derive();
    assert_eq!(r, Err(DerivationError::Range(RangeError::OctaveUnderflow)));
}

#[test]
fn test_conflicting_modifiers_rejected() {
    let c = Chord {
        root: n(Letter::C, 0),
        octave: Octave::Four,
        modifiers: vec![Modifier::Flat5, Modifier::Augmented5],
        extensions: vec![],
        slash: None,
        inversion: 0,
        crunch: false,
    };
    assert_eq!(c.derive(), Err(DerivationError::ConflictingModifiers));

    let c = Chord {
        root: n(Letter::C, 0),
        octave: Octave::Four,
        modifiers: vec![Modifier::Major7, Modifier::Dominant(Degree::Seven)],
        extensions: vec![],
        slash: None,
        inversion: 0,
        crunch: false,
    };
    assert_eq!(c.derive(), Err(DerivationError::ConflictingModifiers));
}

#[test]
fn test_parse_errors_name_the_offender() {
    match parse("H") {
        Err(ParseError::UnrecognizedRoot(s)) => assert_eq!(s, "H"),
        r => panic!("unexpected: {:?}", r),
    }
    match parse("Cxyz") {
        Err(ParseError::UnrecognizedModifierToken(s)) => assert_eq!(s, "xyz"),
        r => panic!("unexpected: {:?}", r),
    }
    match parse("C@11") {
        Err(ParseError::InvalidOctave(s)) => assert_eq!(s, "@11"),
        r => panic!("unexpected: {:?}", r),
    }
    match parse("C@-1") {
        Err(ParseError::InvalidOctave(s)) => assert_eq!(s, "@-1"),
        r => panic!("unexpected: {:?}", r),
    }
    match parse("C^0") {
        Err(ParseError::InvalidInversion(s)) => assert_eq!(s, "^0"),
        r => panic!("unexpected: {:?}", r),
    }
    match parse("C@4x") {
        Err(ParseError::TrailingGarbage(s)) => assert_eq!(s, "x"),
        r => panic!("unexpected: {:?}", r),
    }
}

#[test]
fn test_parse_roots_and_accidentals() {
    assert_eq!(parse_note("C#").unwrap(), n(Letter::C, 1));
    assert_eq!(parse_note("F##").unwrap(), n(Letter::F, 2));
    assert_eq!(parse_note("Gbb").unwrap(), n(Letter::G, -2));
    assert_eq!(parse_note("A♯").unwrap(), n(Letter::A, 1));
    assert_eq!(parse_note("B♭").unwrap(), n(Letter::B, -1));
    assert_eq!(parse_note("e").unwrap(), n(Letter::E, 0));
    assert!(parse_note("C#b").is_err());
    assert!(parse_note("H").is_err());

    // Sharps and flats never mix on one root: the opposite mark is left
    // over and rejected by the later stages.
    assert!(parse("Cb#5x").is_err());
}

#[test]
fn test_greedy_longest_token_first() {
    // `maj7` must not be read as `m` + stray characters.
    let c = parse("Cmaj7").unwrap();
    assert!(c.modifiers.contains(&Modifier::Major7));
    assert!(!c.modifiers.contains(&Modifier::Minor));

    // `m7` composes from `m` and `7`.
    let c = parse("Cm7").unwrap();
    assert!(c.modifiers.contains(&Modifier::Minor));
    assert!(c.modifiers.contains(&Modifier::Dominant(Degree::Seven)));

    // `dim7` keeps the diminished seventh rather than a dominant one.
    let tones = parse("Cdim7").unwrap().derive().unwrap();
    assert_eq!(
        tones,
        vec![
            t(Letter::C, 0, Octave::Four),
            t(Letter::E, -1, Octave::Four),
            t(Letter::G, -1, Octave::Four),
            t(Letter::B, -2, Octave::Four),
        ]
    );

    // `-maj7` is the minor chord with a major seventh.
    let c = parse("C-maj7").unwrap();
    assert!(c.modifiers.contains(&Modifier::Minor));
    assert!(c.modifiers.contains(&Modifier::Major7));
}

#[test]
fn test_extensions() {
    let tones = parse("Csus4").unwrap().derive().unwrap();
    assert_eq!(
        tones,
        vec![
            t(Letter::C, 0, Octave::Four),
            t(Letter::F, 0, Octave::Four),
            t(Letter::G, 0, Octave::Four),
        ]
    );

    let tones = parse("Cadd9").unwrap().derive().unwrap();
    assert_eq!(
        tones,
        vec![
            t(Letter::C, 0, Octave::Four),
            t(Letter::E, 0, Octave::Four),
            t(Letter::G, 0, Octave::Four),
            t(Letter::D, 0, Octave::Five),
        ]
    );

    // Duplicate tokens are idempotent: set semantics.
    let c = parse("Cadd9add9").unwrap();
    assert_eq!(
        c.extensions.iter().filter(|e| **e == Extension::Add9).count(),
        1
    );
}

#[test]
fn test_is_dominant() {
    assert!(Modifier::Dominant(Degree::Nine).is_dominant());
    assert!(!Modifier::Minor.is_dominant());
    assert!(!Modifier::Major7.is_dominant());
}

#[test]
fn test_static_names() {
    assert_eq!(Degree::Seven.static_name(), "7");
    assert_eq!(Degree::Thirteen.static_name(), "13");
    assert_eq!(Modifier::Minor.static_name(), "m");
    assert_eq!(Modifier::Major7.static_name(), "maj7");
    assert_eq!(Modifier::Flat5.static_name(), "♭5");
    assert_eq!(Modifier::Diminished.static_name(), "°");
    assert_eq!(Modifier::Dominant(Degree::Nine).static_name(), "9");
    assert_eq!(Extension::Sus4.static_name(), "sus4");
    assert_eq!(Extension::Add13.static_name(), "add13");
    assert_eq!(Extension::Flat11.static_name(), "♭11");
}

#[test]
fn test_names_render_and_reparse() {
    assert_eq!(parse("C").unwrap().name(), "C");
    assert_eq!(parse("Cm7").unwrap().name(), "Cm7");
    assert_eq!(parse("C@3^1").unwrap().name(), "C@3^1");
    assert_eq!(parse("C/G").unwrap().name(), "C/G");
    assert_eq!(parse("C9#").unwrap().name(), "C9#");
    assert_eq!(n(Letter::B, -1).name(), "Bb");
    assert_eq!(t(Letter::C, 1, Octave::Ten).name(), "C#10");

    // Round trip: re-parsing a rendered symbol reproduces the pitch content.
    for s in ["Cm7", "Cmaj7@5", "Cdim/G@6^2#", "Csus4add9"] {
        let c = parse(s).unwrap();
        let back = parse(&c.name()).unwrap();
        assert_eq!(c.derive().unwrap(), back.derive().unwrap());
    }
}

#[test]
fn test_semitones_from_a4() {
    assert_eq!(t(Letter::A, 0, Octave::Four).semitones_from_a4(), 0);
    assert_eq!(t(Letter::C, 0, Octave::Four).semitones_from_a4(), -9);
    assert_eq!(t(Letter::A, 0, Octave::Five).semitones_from_a4(), 12);
    assert_eq!(t(Letter::B, -1, Octave::Four).semitones_from_a4(), 1);
}

#[test]
fn test_note_names_reparse() {
    for (letter, acc) in [
        (Letter::C, 0),
        (Letter::C, 1),
        (Letter::F, 2),
        (Letter::G, -2),
        (Letter::B, -1),
        (Letter::A, 0),
    ] {
        let note = n(letter, acc);
        assert_eq!(parse_note(&note.name()).unwrap(), note);
    }
}

#[test]
fn test_builders() {
    let c = Chord::new(n(Letter::D, 0))
        .with_octave(Octave::Five)
        .with_inversion(1)
        .with_crunch();
    let tones = c.derive().unwrap();
    assert_eq!(
        tones,
        vec![
            t(Letter::F, 1, Octave::Five),
            t(Letter::A, 0, Octave::Five),
            t(Letter::D, 0, Octave::Five),
        ]
    );

    let c = Chord::new(n(Letter::C, 0)).with_slash(n(Letter::G, 0));
    assert_eq!(c.derive().unwrap()[0], t(Letter::G, 0, Octave::Three));
}
