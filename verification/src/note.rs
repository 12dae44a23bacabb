//! The note model: pitch names, pitch classes, spelled intervals, and tones
//! placed in registers.

use vstd::prelude::*;
use crate::octave::{Octave, HasOctave, octave_number};

verus! {

/// One of the seven letter classes, `C` through `B`.
#[derive(PartialEq, Eq, Copy, Clone, Hash, Debug, Ord, PartialOrd, Structural)]
pub enum Letter {
    C,
    D,
    E,
    F,
    G,
    A,
    B,
}

/// A pitch name: a letter class plus an accidental offset, independent of
/// octave.
///
/// The accidental counts sharps (positive) or flats (negative), magnitude at
/// most two.  Spelling is preserved for display; pitch-class comparisons go
/// through [`pitch_class`].
#[derive(PartialEq, Eq, Copy, Clone, Hash, Debug, Ord, PartialOrd, Structural)]
pub struct Note {
    pub letter: Letter,
    pub accidental: i8,
}

/// A note placed in a specific register.
#[derive(PartialEq, Eq, Copy, Clone, Hash, Debug, Ord, PartialOrd, Structural)]
pub struct Tone {
    pub note: Note,
    pub octave: Octave,
}

/// A spelled note is well formed when its accidental has magnitude at most
/// two.
pub open spec fn note_wf(n: Note) -> bool {
    -2 <= n.accidental <= 2
}

/// Position of a letter in the C-based letter cycle.
pub open spec fn letter_index(l: Letter) -> int {
    match l {
        Letter::C => 0,
        Letter::D => 1,
        Letter::E => 2,
        Letter::F => 3,
        Letter::G => 4,
        Letter::A => 5,
        Letter::B => 6,
    }
}

/// The letter at a given position of the C-based letter cycle.
pub open spec fn letter_at(i: int) -> Letter {
    if i <= 0 {
        Letter::C
    } else if i == 1 {
        Letter::D
    } else if i == 2 {
        Letter::E
    } else if i == 3 {
        Letter::F
    } else if i == 4 {
        Letter::G
    } else if i == 5 {
        Letter::A
    } else {
        Letter::B
    }
}

/// The natural (unaltered) semitone of a letter within an octave, `C = 0`.
pub open spec fn natural_semitone(l: Letter) -> int {
    match l {
        Letter::C => 0,
        Letter::D => 2,
        Letter::E => 4,
        Letter::F => 5,
        Letter::G => 7,
        Letter::A => 9,
        Letter::B => 11,
    }
}

/// The pitch class of a note: its semitone value reduced modulo 12.
pub open spec fn pitch_class(n: Note) -> int {
    (natural_semitone(n.letter) + n.accidental) % 12
}

/// The fallback spelling of a pitch class with at most one accidental,
/// using the customary mixed-accidental names (`C♯`, `E♭`, ...).
pub open spec fn plain_spelling(pc: int) -> Note {
    if pc == 0 {
        Note { letter: Letter::C, accidental: 0 as i8 }
    } else if pc == 1 {
        Note { letter: Letter::C, accidental: 1 as i8 }
    } else if pc == 2 {
        Note { letter: Letter::D, accidental: 0 as i8 }
    } else if pc == 3 {
        Note { letter: Letter::E, accidental: (-1) as i8 }
    } else if pc == 4 {
        Note { letter: Letter::E, accidental: 0 as i8 }
    } else if pc == 5 {
        Note { letter: Letter::F, accidental: 0 as i8 }
    } else if pc == 6 {
        Note { letter: Letter::F, accidental: 1 as i8 }
    } else if pc == 7 {
        Note { letter: Letter::G, accidental: 0 as i8 }
    } else if pc == 8 {
        Note { letter: Letter::A, accidental: (-1) as i8 }
    } else if pc == 9 {
        Note { letter: Letter::A, accidental: 0 as i8 }
    } else if pc == 10 {
        Note { letter: Letter::B, accidental: (-1) as i8 }
    } else {
        Note { letter: Letter::B, accidental: 0 as i8 }
    }
}

/// The spelling of the tone `steps` letter steps above `root` at `offset`
/// semitones above it.
///
/// The target letter is the root's letter advanced by `steps`; its accidental
/// makes up the difference between the requested offset and the natural gap
/// between the two letters.  Where that would take more than two accidentals,
/// the tone falls back to the plain spelling of its pitch class.
#[verifier::opaque]
pub open spec fn spelled_interval(root: Note, steps: int, offset: int) -> Note {
    let p = letter_index(root.letter) + steps;
    let target = letter_at(p % 7);
    let natural_gap = natural_semitone(target) + 12 * (p / 7) - natural_semitone(root.letter);
    let acc = root.accidental + offset - natural_gap;
    if -2 <= acc <= 2 {
        Note { letter: target, accidental: acc as i8 }
    } else {
        plain_spelling((natural_semitone(root.letter) + root.accidental + offset) % 12)
    }
}

impl Note {
    /// The pitch class of this note, `0..=11`.
    pub fn pitch_class_number(&self) -> (pc: u8)
        requires
            note_wf(*self),
        ensures
            pc == pitch_class(*self),
            pc < 12,
    {
        let n: i32 = self.natural() as i32 + self.accidental as i32;
        (((n % 12) + 12) % 12) as u8
    }

    /// The natural semitone of this note's letter.
    pub fn natural(&self) -> (n: u8)
        ensures
            n == natural_semitone(self.letter),
    {
        match self.letter {
            Letter::C => 0,
            Letter::D => 2,
            Letter::E => 4,
            Letter::F => 5,
            Letter::G => 7,
            Letter::A => 9,
            Letter::B => 11,
        }
    }

    /// Whether `self` and `other` name the same pitch up to enharmonic
    /// spelling.
    pub fn same_pitch_class(&self, other: &Note) -> (r: bool)
        requires
            note_wf(*self),
            note_wf(*other),
        ensures
            r == (pitch_class(*self) == pitch_class(*other)),
    {
        self.pitch_class_number() == other.pitch_class_number()
    }
}

/// Executable counterpart of [`letter_index`].
pub fn letter_index_of(l: Letter) -> (i: u8)
    ensures
        i == letter_index(l),
{
    match l {
        Letter::C => 0,
        Letter::D => 1,
        Letter::E => 2,
        Letter::F => 3,
        Letter::G => 4,
        Letter::A => 5,
        Letter::B => 6,
    }
}

/// Executable counterpart of [`letter_at`], for positions `0..=6`.
pub fn letter_at_index(i: u8) -> (l: Letter)
    requires
        i <= 6,
    ensures
        l == letter_at(i as int),
{
    match i {
        0 => Letter::C,
        1 => Letter::D,
        2 => Letter::E,
        3 => Letter::F,
        4 => Letter::G,
        5 => Letter::A,
        _ => Letter::B,
    }
}

/// Executable counterpart of [`plain_spelling`].
pub fn plain_spelling_of(pc: u8) -> (n: Note)
    requires
        pc < 12,
    ensures
        n == plain_spelling(pc as int),
        note_wf(n),
{
    match pc {
        0 => Note { letter: Letter::C, accidental: 0 as i8 },
        1 => Note { letter: Letter::C, accidental: 1 as i8 },
        2 => Note { letter: Letter::D, accidental: 0 as i8 },
        3 => Note { letter: Letter::E, accidental: (-1) as i8 },
        4 => Note { letter: Letter::E, accidental: 0 as i8 },
        5 => Note { letter: Letter::F, accidental: 0 as i8 },
        6 => Note { letter: Letter::F, accidental: 1 as i8 },
        7 => Note { letter: Letter::G, accidental: 0 as i8 },
        8 => Note { letter: Letter::A, accidental: (-1) as i8 },
        9 => Note { letter: Letter::A, accidental: 0 as i8 },
        10 => Note { letter: Letter::B, accidental: (-1) as i8 },
        _ => Note { letter: Letter::B, accidental: 0 as i8 },
    }
}

/// Executable counterpart of [`spelled_interval`], for the interval range the
/// derivation engine uses.
pub fn spell_interval(root: Note, steps: u8, offset: u8) -> (n: Note)
    requires
        note_wf(root),
        steps <= 12,
        offset <= 24,
    ensures
        n == spelled_interval(root, steps as int, offset as int),
        note_wf(n),
{
    proof {
        reveal(spelled_interval);
    }
    let p: u8 = letter_index_of(root.letter) + steps;
    let target = letter_at_index(p % 7);
    let natural_gap: i32 = natural_of(target) as i32 + 12 * (p / 7) as i32 - natural_of(
        root.letter,
    ) as i32;
    let acc: i32 = root.accidental as i32 + offset as i32 - natural_gap;
    if -2 <= acc && acc <= 2 {
        Note { letter: target, accidental: acc as i8 }
    } else {
        let total: i32 = natural_of(root.letter) as i32 + root.accidental as i32 + offset as i32;
        plain_spelling_of((((total % 12) + 12) % 12) as u8)
    }
}

/// Executable counterpart of [`natural_semitone`].
pub fn natural_of(l: Letter) -> (n: u8)
    ensures
        n == natural_semitone(l),
{
    match l {
        Letter::C => 0,
        Letter::D => 2,
        Letter::E => 4,
        Letter::F => 5,
        Letter::G => 7,
        Letter::A => 9,
        Letter::B => 11,
    }
}

/// A zero-step, zero-offset interval is the root itself.
pub proof fn lemma_spelled_interval_root(root: Note)
    requires
        note_wf(root),
    ensures
        spelled_interval(root, 0, 0) == root,
{
    reveal(spelled_interval);
}

/// The signed number of semitones from `A4` (the 440 Hz reference) to a tone.
///
/// Under equal temperament the tone's frequency is `440 * 2^(d / 12)` for the
/// distance `d` returned here; computing that real number is left to callers
/// that deal in audio.
pub open spec fn semitones_from_a4(t: Tone) -> int {
    12 * octave_number(t.octave) + natural_semitone(t.note.letter) + t.note.accidental - 57
}

impl Tone {
    /// Executable counterpart of [`semitones_from_a4`].
    pub fn semitones_from_a4(&self) -> (d: i32)
        requires
            note_wf(self.note),
        ensures
            d == semitones_from_a4(*self),
    {
        12 * self.octave.number() as i32 + self.note.natural() as i32 + self.note.accidental as i32
            - 57
    }
}

impl HasOctave for Tone {
    fn octave(&self) -> Octave {
        self.octave
    }
}

} // verus!
