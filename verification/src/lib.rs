//! A small music-theory library: chord symbols, chord-tone derivation, and
//! chord guessing.
//!
//! The library parses compact chord symbols such as `Cm7b5` or `Cmaj7b9@3^2#`
//! into a [`chord::Chord`], derives the ordered list of constituent tones
//! (notes placed in octaves), and, going the other way, guesses plausible
//! chord symbols from an unordered set of note names.  All of it is pure,
//! deterministic, in-memory symbolic computation.

pub mod octave;
pub mod modifier;
pub mod note;
pub mod chord;
pub mod parser;
pub mod guess;
pub mod render;
