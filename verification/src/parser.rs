//! The chord-symbol parser: a hand-rolled lexer over a fixed token
//! vocabulary, greedy and longest-token-first, consuming the stages of the
//! grammar left to right: root, modifiers, extensions, slash note, octave,
//! inversion, crunch.

use vstd::prelude::*;
use vstd::string::StrSliceExecFns;
use crate::note::{Note, Letter, note_wf};
use crate::octave::{Octave, octave_of_number};
use crate::modifier::{Degree, Modifier, Extension};
use crate::chord::{Chord, ChordView, chord_wf};

verus! {

/// A parse failure, with the offending tail of the input.
///
/// Every failure names the substring at which the grammar stopped; parsing
/// never panics.
#[derive(Clone, Debug, PartialEq)]
pub enum ParseError {
    /// The input does not begin with a note spelling (or the note after a
    /// slash is malformed).
    UnrecognizedRoot(String),
    /// Characters before a delimiter match no modifier or extension token.
    UnrecognizedModifierToken(String),
    /// The octave marker is not followed by an integer in `0..=10`.
    InvalidOctave(String),
    /// The inversion marker is not followed by a positive integer.
    InvalidInversion(String),
    /// Characters remain after every stage of the grammar has had its turn.
    TrailingGarbage(String),
}

/// The mathematical value of a [`ParseError`]: the same five failures over
/// character sequences.
pub enum SymbolFault {
    UnrecognizedRoot(Seq<char>),
    UnrecognizedModifierToken(Seq<char>),
    InvalidOctave(Seq<char>),
    InvalidInversion(Seq<char>),
    TrailingGarbage(Seq<char>),
}

/// Whether an executable parse error carries exactly the fault `f`.
pub open spec fn fault_matches(e: ParseError, f: SymbolFault) -> bool {
    match (e, f) {
        (ParseError::UnrecognizedRoot(t), SymbolFault::UnrecognizedRoot(u)) => t@ == u,
        (
            ParseError::UnrecognizedModifierToken(t),
            SymbolFault::UnrecognizedModifierToken(u),
        ) => t@ == u,
        (ParseError::InvalidOctave(t), SymbolFault::InvalidOctave(u)) => t@ == u,
        (ParseError::InvalidInversion(t), SymbolFault::InvalidInversion(u)) => t@ == u,
        (ParseError::TrailingGarbage(t), SymbolFault::TrailingGarbage(u)) => t@ == u,
        _ => false,
    }
}

// ---------------------------------------------------------------------------
// Character classes.

pub open spec fn letter_of(c: char) -> Option<Letter> {
    if c == 'C' || c == 'c' {
        Some(Letter::C)
    } else if c == 'D' || c == 'd' {
        Some(Letter::D)
    } else if c == 'E' || c == 'e' {
        Some(Letter::E)
    } else if c == 'F' || c == 'f' {
        Some(Letter::F)
    } else if c == 'G' || c == 'g' {
        Some(Letter::G)
    } else if c == 'A' || c == 'a' {
        Some(Letter::A)
    } else if c == 'B' {
        Some(Letter::B)
    } else {
        None
    }
}

pub open spec fn is_sharp_mark(c: char) -> bool {
    c == '#' || c == '♯'
}

pub open spec fn is_flat_mark(c: char) -> bool {
    c == 'b' || c == '♭'
}

pub open spec fn digit_of(c: char) -> Option<u8> {
    if c == '0' {
        Some(0u8)
    } else if c == '1' {
        Some(1u8)
    } else if c == '2' {
        Some(2u8)
    } else if c == '3' {
        Some(3u8)
    } else if c == '4' {
        Some(4u8)
    } else if c == '5' {
        Some(5u8)
    } else if c == '6' {
        Some(6u8)
    } else if c == '7' {
        Some(7u8)
    } else if c == '8' {
        Some(8u8)
    } else if c == '9' {
        Some(9u8)
    } else {
        None
    }
}

/// The characters at which the modifier and extension run may legitimately
/// stop: slash, octave, inversion, and the crunch marker.
pub open spec fn is_delim(c: char) -> bool {
    c == '/' || c == '@' || c == '^' || c == '#'
}

// ---------------------------------------------------------------------------
// Note spellings.

/// A note spelling read at position `i`: a letter, case-insensitive, then up
/// to two sharp marks or up to two flat marks, greedily.  Returns the note
/// and the position after it.  A lowercase `b` sharp/flat ambiguity does not
/// arise: `b` after a letter is always a flat mark.
pub open spec fn note_at(s: Seq<char>, i: int) -> Option<(Note, int)> {
    if 0 <= i < s.len() && letter_of(s[i]) is Some {
        let l = letter_of(s[i])->0;
        if i + 1 < s.len() && is_sharp_mark(s[i + 1]) {
            if i + 2 < s.len() && is_sharp_mark(s[i + 2]) {
                Some((Note { letter: l, accidental: 2 as i8 }, i + 3))
            } else {
                Some((Note { letter: l, accidental: 1 as i8 }, i + 2))
            }
        } else if i + 1 < s.len() && is_flat_mark(s[i + 1]) {
            if i + 2 < s.len() && is_flat_mark(s[i + 2]) {
                Some((Note { letter: l, accidental: (-2) as i8 }, i + 3))
            } else {
                Some((Note { letter: l, accidental: (-1) as i8 }, i + 2))
            }
        } else {
            Some((Note { letter: l, accidental: 0 as i8 }, i + 1))
        }
    } else {
        None
    }
}

fn letter_of_exec(c: char) -> (r: Option<Letter>)
    ensures
        r == letter_of(c),
{
    match c {
        'C' | 'c' => Some(Letter::C),
        'D' | 'd' => Some(Letter::D),
        'E' | 'e' => Some(Letter::E),
        'F' | 'f' => Some(Letter::F),
        'G' | 'g' => Some(Letter::G),
        'A' | 'a' => Some(Letter::A),
        'B' => Some(Letter::B),
        _ => None,
    }
}

fn digit_of_exec(c: char) -> (r: Option<u8>)
    ensures
        r == digit_of(c),
{
    match c {
        '0' => Some(0),
        '1' => Some(1),
        '2' => Some(2),
        '3' => Some(3),
        '4' => Some(4),
        '5' => Some(5),
        '6' => Some(6),
        '7' => Some(7),
        '8' => Some(8),
        '9' => Some(9),
        _ => None,
    }
}

fn is_sharp_exec(c: char) -> (r: bool)
    ensures
        r == is_sharp_mark(c),
{
    c == '#' || c == '♯'
}

fn is_flat_exec(c: char) -> (r: bool)
    ensures
        r == is_flat_mark(c),
{
    c == 'b' || c == '♭'
}

fn note_at_exec(cs: &Vec<char>, i: usize) -> (r: Option<(Note, usize)>)
    requires
        i <= cs@.len(),
    ensures
        match r {
            Some(p) => note_at(cs@, i as int) == Some((p.0, p.1 as int)) && note_wf(p.0) && i
                < p.1 <= cs@.len(),
            None => note_at(cs@, i as int) is None,
        },
{
    if i >= cs.len() {
        return None;
    }
    let l = match letter_of_exec(cs[i]) {
        Some(l) => l,
        None => {
            return None;
        },
    };
    if i + 1 < cs.len() && is_sharp_exec(cs[i + 1]) {
        if i + 2 < cs.len() && is_sharp_exec(cs[i + 2]) {
            Some((Note { letter: l, accidental: 2 }, i + 3))
        } else {
            Some((Note { letter: l, accidental: 1 }, i + 2))
        }
    } else if i + 1 < cs.len() && is_flat_exec(cs[i + 1]) {
        if i + 2 < cs.len() && is_flat_exec(cs[i + 2]) {
            Some((Note { letter: l, accidental: -2 }, i + 3))
        } else {
            Some((Note { letter: l, accidental: -1 }, i + 2))
        }
    } else {
        Some((Note { letter: l, accidental: 0 }, i + 1))
    }
}

// ---------------------------------------------------------------------------
// The modifier token table.

/// The modifier tokens the lexer knows, one constructor per table entry.
#[derive(PartialEq, Eq, Copy, Clone, Debug, Structural)]
pub enum ModTok {
    /// `-maj7`: minor with a major seventh.
    MinMaj7,
    /// `maj7`.
    Maj7,
    /// `dim7`: the seventh is the diminished one the `Diminished` modifier
    /// itself carries.
    Dim7,
    /// `dim`.
    Dim,
    /// `°`.
    DimSign,
    /// `aug`.
    Aug,
    /// `+`.
    Plus,
    /// `m`.
    Min,
    /// `7`.
    Dom7,
    /// `9`.
    Dom9,
    /// `11`.
    Dom11,
    /// `13`.
    Dom13,
    /// `b5` / `♭5`.
    Flat5,
    /// `#5` / `♯5`.
    Sharp5,
    /// `b9` / `♭9`.
    Flat9,
    /// `#9` / `♯9`.
    Sharp9,
    /// `#11` / `♯11`.
    Sharp11,
}

pub open spec fn tok1(s: Seq<char>, i: int, c0: char) -> bool {
    0 <= i && i + 1 <= s.len() && s[i] == c0
}

pub open spec fn tok2(s: Seq<char>, i: int, c0: char, c1: char) -> bool {
    0 <= i && i + 2 <= s.len() && s[i] == c0 && s[i + 1] == c1
}

pub open spec fn tok3(s: Seq<char>, i: int, c0: char, c1: char, c2: char) -> bool {
    0 <= i && i + 3 <= s.len() && s[i] == c0 && s[i + 1] == c1 && s[i + 2] == c2
}

pub open spec fn tok4(s: Seq<char>, i: int, c0: char, c1: char, c2: char, c3: char) -> bool {
    0 <= i && i + 4 <= s.len() && s[i] == c0 && s[i + 1] == c1 && s[i + 2] == c2 && s[i + 3] == c3
}

pub open spec fn tok5(s: Seq<char>, i: int, c0: char, c1: char, c2: char, c3: char, c4: char)
    -> bool {
    0 <= i && i + 5 <= s.len() && s[i] == c0 && s[i + 1] == c1 && s[i + 2] == c2 && s[i + 3] == c3
        && s[i + 4] == c4
}

/// The longest modifier token starting at `i`, with its length; longer
/// tokens are preferred, so `maj7` is never read as `m` followed by
/// stray characters.
pub open spec fn mod_tok_at(s: Seq<char>, i: int) -> Option<(int, ModTok)> {
    if tok5(s, i, '-', 'm', 'a', 'j', '7') {
        Some((5int, ModTok::MinMaj7))
    } else if tok4(s, i, 'm', 'a', 'j', '7') {
        Some((4int, ModTok::Maj7))
    } else if tok4(s, i, 'd', 'i', 'm', '7') {
        Some((4int, ModTok::Dim7))
    } else if tok3(s, i, 'd', 'i', 'm') {
        Some((3int, ModTok::Dim))
    } else if tok3(s, i, 'a', 'u', 'g') {
        Some((3int, ModTok::Aug))
    } else if tok3(s, i, '#', '1', '1') || tok3(s, i, '♯', '1', '1') {
        Some((3int, ModTok::Sharp11))
    } else if tok2(s, i, '1', '3') {
        Some((2int, ModTok::Dom13))
    } else if tok2(s, i, '1', '1') {
        Some((2int, ModTok::Dom11))
    } else if tok2(s, i, 'b', '5') || tok2(s, i, '♭', '5') {
        Some((2int, ModTok::Flat5))
    } else if tok2(s, i, '#', '5') || tok2(s, i, '♯', '5') {
        Some((2int, ModTok::Sharp5))
    } else if tok2(s, i, 'b', '9') || tok2(s, i, '♭', '9') {
        Some((2int, ModTok::Flat9))
    } else if tok2(s, i, '#', '9') || tok2(s, i, '♯', '9') {
        Some((2int, ModTok::Sharp9))
    } else if tok1(s, i, '°') {
        Some((1int, ModTok::DimSign))
    } else if tok1(s, i, '+') {
        Some((1int, ModTok::Plus))
    } else if tok1(s, i, 'm') {
        Some((1int, ModTok::Min))
    } else if tok1(s, i, '7') {
        Some((1int, ModTok::Dom7))
    } else if tok1(s, i, '9') {
        Some((1int, ModTok::Dom9))
    } else {
        None
    }
}

/// Inserting into a modifier set: idempotent membership.
pub open spec fn add_mod(ms: Seq<Modifier>, m: Modifier) -> Seq<Modifier> {
    if ms.contains(m) {
        ms
    } else {
        ms.push(m)
    }
}

pub open spec fn add_ext(es: Seq<Extension>, e: Extension) -> Seq<Extension> {
    if es.contains(e) {
        es
    } else {
        es.push(e)
    }
}

/// The modifiers a token contributes to the chord.
pub open spec fn apply_mod_tok(ms: Seq<Modifier>, t: ModTok) -> Seq<Modifier> {
    match t {
        ModTok::MinMaj7 => add_mod(add_mod(ms, Modifier::Minor), Modifier::Major7),
        ModTok::Maj7 => add_mod(ms, Modifier::Major7),
        ModTok::Dim7 => add_mod(ms, Modifier::Diminished),
        ModTok::Dim => add_mod(ms, Modifier::Diminished),
        ModTok::DimSign => add_mod(ms, Modifier::Diminished),
        ModTok::Aug => add_mod(ms, Modifier::Augmented5),
        ModTok::Plus => add_mod(ms, Modifier::Augmented5),
        ModTok::Min => add_mod(ms, Modifier::Minor),
        ModTok::Dom7 => add_mod(ms, Modifier::Dominant(Degree::Seven)),
        ModTok::Dom9 => add_mod(ms, Modifier::Dominant(Degree::Nine)),
        ModTok::Dom11 => add_mod(ms, Modifier::Dominant(Degree::Eleven)),
        ModTok::Dom13 => add_mod(ms, Modifier::Dominant(Degree::Thirteen)),
        ModTok::Flat5 => add_mod(ms, Modifier::Flat5),
        ModTok::Sharp5 => add_mod(ms, Modifier::Augmented5),
        ModTok::Flat9 => add_mod(ms, Modifier::Flat9),
        ModTok::Sharp9 => add_mod(ms, Modifier::Sharp9),
        ModTok::Sharp11 => add_mod(ms, Modifier::Sharp11),
    }
}

/// The modifier run: tokens applied greedily from `i` until none matches.
/// Returns the accumulated set and the stop position.
pub open spec fn lex_mods(s: Seq<char>, i: int, ms: Seq<Modifier>) -> (Seq<Modifier>, int)
    decreases s.len() - i,
{
    match mod_tok_at(s, i) {
        Some(p) => {
            if 1 <= p.0 && i + p.0 <= s.len() {
                lex_mods(s, i + p.0, apply_mod_tok(ms, p.1))
            } else {
                (ms, i)
            }
        },
        None => (ms, i),
    }
}

fn mod_tok_at_exec(cs: &Vec<char>, i: usize) -> (r: Option<(usize, ModTok)>)
    requires
        i <= cs@.len(),
    ensures
        match r {
            Some(p) => mod_tok_at(cs@, i as int) == Some((p.0 as int, p.1)) && 1 <= p.0 && i + p.0
                <= cs@.len(),
            None => mod_tok_at(cs@, i as int) is None,
        },
{
    let n = cs.len();
    if n - i >= 5 && cs[i] == '-' && cs[i + 1] == 'm' && cs[i + 2] == 'a' && cs[i + 3] == 'j'
        && cs[i + 4] == '7' {
        Some((5, ModTok::MinMaj7))
    } else if n - i >= 4 && cs[i] == 'm' && cs[i + 1] == 'a' && cs[i + 2] == 'j' && cs[i + 3]
        == '7' {
        Some((4, ModTok::Maj7))
    } else if n - i >= 4 && cs[i] == 'd' && cs[i + 1] == 'i' && cs[i + 2] == 'm' && cs[i + 3]
        == '7' {
        Some((4, ModTok::Dim7))
    } else if n - i >= 3 && cs[i] == 'd' && cs[i + 1] == 'i' && cs[i + 2] == 'm' {
        Some((3, ModTok::Dim))
    } else if n - i >= 3 && cs[i] == 'a' && cs[i + 1] == 'u' && cs[i + 2] == 'g' {
        Some((3, ModTok::Aug))
    } else if n - i >= 3 && (cs[i] == '#' || cs[i] == '♯') && cs[i + 1] == '1' && cs[i + 2]
        == '1' {
        Some((3, ModTok::Sharp11))
    } else if n - i >= 2 && cs[i] == '1' && cs[i + 1] == '3' {
        Some((2, ModTok::Dom13))
    } else if n - i >= 2 && cs[i] == '1' && cs[i + 1] == '1' {
        Some((2, ModTok::Dom11))
    } else if n - i >= 2 && (cs[i] == 'b' || cs[i] == '♭') && cs[i + 1] == '5' {
        Some((2, ModTok::Flat5))
    } else if n - i >= 2 && (cs[i] == '#' || cs[i] == '♯') && cs[i + 1] == '5' {
        Some((2, ModTok::Sharp5))
    } else if n - i >= 2 && (cs[i] == 'b' || cs[i] == '♭') && cs[i + 1] == '9' {
        Some((2, ModTok::Flat9))
    } else if n - i >= 2 && (cs[i] == '#' || cs[i] == '♯') && cs[i + 1] == '9' {
        Some((2, ModTok::Sharp9))
    } else if n - i >= 1 && cs[i] == '°' {
        Some((1, ModTok::DimSign))
    } else if n - i >= 1 && cs[i] == '+' {
        Some((1, ModTok::Plus))
    } else if n - i >= 1 && cs[i] == 'm' {
        Some((1, ModTok::Min))
    } else if n - i >= 1 && cs[i] == '7' {
        Some((1, ModTok::Dom7))
    } else if n - i >= 1 && cs[i] == '9' {
        Some((1, ModTok::Dom9))
    } else {
        None
    }
}

fn insert_mod(ms: &mut Vec<Modifier>, m: Modifier)
    ensures
        final(ms)@ == add_mod(old(ms)@, m),
{
    if !crate::modifier::contains_mod(ms, m) {
        ms.push(m);
    }
}

fn insert_ext(es: &mut Vec<Extension>, e: Extension)
    ensures
        final(es)@ == add_ext(old(es)@, e),
{
    if !crate::modifier::contains_ext(es, e) {
        es.push(e);
    }
}

fn apply_mod_tok_exec(ms: &mut Vec<Modifier>, t: ModTok)
    ensures
        final(ms)@ == apply_mod_tok(old(ms)@, t),
{
    match t {
        ModTok::MinMaj7 => {
            insert_mod(ms, Modifier::Minor);
            insert_mod(ms, Modifier::Major7);
        },
        ModTok::Maj7 => insert_mod(ms, Modifier::Major7),
        ModTok::Dim7 => insert_mod(ms, Modifier::Diminished),
        ModTok::Dim => insert_mod(ms, Modifier::Diminished),
        ModTok::DimSign => insert_mod(ms, Modifier::Diminished),
        ModTok::Aug => insert_mod(ms, Modifier::Augmented5),
        ModTok::Plus => insert_mod(ms, Modifier::Augmented5),
        ModTok::Min => insert_mod(ms, Modifier::Minor),
        ModTok::Dom7 => insert_mod(ms, Modifier::Dominant(Degree::Seven)),
        ModTok::Dom9 => insert_mod(ms, Modifier::Dominant(Degree::Nine)),
        ModTok::Dom11 => insert_mod(ms, Modifier::Dominant(Degree::Eleven)),
        ModTok::Dom13 => insert_mod(ms, Modifier::Dominant(Degree::Thirteen)),
        ModTok::Flat5 => insert_mod(ms, Modifier::Flat5),
        ModTok::Sharp5 => insert_mod(ms, Modifier::Augmented5),
        ModTok::Flat9 => insert_mod(ms, Modifier::Flat9),
        ModTok::Sharp9 => insert_mod(ms, Modifier::Sharp9),
        ModTok::Sharp11 => insert_mod(ms, Modifier::Sharp11),
    }
}

// ---------------------------------------------------------------------------
// The extension token table.

/// The longest extension token starting at `i`, with its length.
pub open spec fn ext_tok_at(s: Seq<char>, i: int) -> Option<(int, Extension)> {
    if tok5(s, i, 'a', 'd', 'd', '1', '1') {
        Some((5int, Extension::Add11))
    } else if tok5(s, i, 'a', 'd', 'd', '1', '3') {
        Some((5int, Extension::Add13))
    } else if tok4(s, i, 'a', 'd', 'd', '2') {
        Some((4int, Extension::Add2))
    } else if tok4(s, i, 'a', 'd', 'd', '4') {
        Some((4int, Extension::Add4))
    } else if tok4(s, i, 'a', 'd', 'd', '6') {
        Some((4int, Extension::Add6))
    } else if tok4(s, i, 'a', 'd', 'd', '9') {
        Some((4int, Extension::Add9))
    } else if tok4(s, i, 's', 'u', 's', '2') {
        Some((4int, Extension::Sus2))
    } else if tok4(s, i, 's', 'u', 's', '4') {
        Some((4int, Extension::Sus4))
    } else if tok3(s, i, 'b', '1', '1') || tok3(s, i, '♭', '1', '1') {
        Some((3int, Extension::Flat11))
    } else if tok3(s, i, 'b', '1', '3') || tok3(s, i, '♭', '1', '3') {
        Some((3int, Extension::Flat13))
    } else if tok3(s, i, '#', '1', '3') || tok3(s, i, '♯', '1', '3') {
        Some((3int, Extension::Sharp13))
    } else {
        None
    }
}

/// The extension run: tokens applied greedily from `i` until none matches.
pub open spec fn lex_exts(s: Seq<char>, i: int, es: Seq<Extension>) -> (Seq<Extension>, int)
    decreases s.len() - i,
{
    match ext_tok_at(s, i) {
        Some(p) => {
            if 1 <= p.0 && i + p.0 <= s.len() {
                lex_exts(s, i + p.0, add_ext(es, p.1))
            } else {
                (es, i)
            }
        },
        None => (es, i),
    }
}

fn ext_tok_at_exec(cs: &Vec<char>, i: usize) -> (r: Option<(usize, Extension)>)
    requires
        i <= cs@.len(),
    ensures
        match r {
            Some(p) => ext_tok_at(cs@, i as int) == Some((p.0 as int, p.1)) && 1 <= p.0 && i + p.0
                <= cs@.len(),
            None => ext_tok_at(cs@, i as int) is None,
        },
{
    let n = cs.len();
    if n - i >= 5 && cs[i] == 'a' && cs[i + 1] == 'd' && cs[i + 2] == 'd' && cs[i + 3] == '1'
        && cs[i + 4] == '1' {
        Some((5, Extension::Add11))
    } else if n - i >= 5 && cs[i] == 'a' && cs[i + 1] == 'd' && cs[i + 2] == 'd' && cs[i + 3]
        == '1' && cs[i + 4] == '3' {
        Some((5, Extension::Add13))
    } else if n - i >= 4 && cs[i] == 'a' && cs[i + 1] == 'd' && cs[i + 2] == 'd' && cs[i + 3]
        == '2' {
        Some((4, Extension::Add2))
    } else if n - i >= 4 && cs[i] == 'a' && cs[i + 1] == 'd' && cs[i + 2] == 'd' && cs[i + 3]
        == '4' {
        Some((4, Extension::Add4))
    } else if n - i >= 4 && cs[i] == 'a' && cs[i + 1] == 'd' && cs[i + 2] == 'd' && cs[i + 3]
        == '6' {
        Some((4, Extension::Add6))
    } else if n - i >= 4 && cs[i] == 'a' && cs[i + 1] == 'd' && cs[i + 2] == 'd' && cs[i + 3]
        == '9' {
        Some((4, Extension::Add9))
    } else if n - i >= 4 && cs[i] == 's' && cs[i + 1] == 'u' && cs[i + 2] == 's' && cs[i + 3]
        == '2' {
        Some((4, Extension::Sus2))
    } else if n - i >= 4 && cs[i] == 's' && cs[i + 1] == 'u' && cs[i + 2] == 's' && cs[i + 3]
        == '4' {
        Some((4, Extension::Sus4))
    } else if n - i >= 3 && (cs[i] == 'b' || cs[i] == '♭') && cs[i + 1] == '1' && cs[i + 2]
        == '1' {
        Some((3, Extension::Flat11))
    } else if n - i >= 3 && (cs[i] == 'b' || cs[i] == '♭') && cs[i + 1] == '1' && cs[i + 2]
        == '3' {
        Some((3, Extension::Flat13))
    } else if n - i >= 3 && (cs[i] == '#' || cs[i] == '♯') && cs[i + 1] == '1' && cs[i + 2]
        == '3' {
        Some((3, Extension::Sharp13))
    } else {
        None
    }
}

// ---------------------------------------------------------------------------
// The optional trailing stages.

/// The slash stage: `/` followed by a note spelling.
pub open spec fn slash_stage(s: Seq<char>, i: int) -> Result<(Option<Note>, int), SymbolFault> {
    if 0 <= i < s.len() && s[i] == '/' {
        match note_at(s, i + 1) {
            Some(p) => Ok((Some(p.0), p.1)),
            None => Err(SymbolFault::UnrecognizedRoot(s.subrange(i + 1, s.len() as int))),
        }
    } else {
        Ok((None, i))
    }
}

/// The octave stage: `@` followed by an integer in `0..=10`; anything else,
/// a negative number included, is an invalid octave.  Without the marker the
/// chord keeps the default register four.
pub open spec fn octave_stage(s: Seq<char>, i: int) -> Result<(Octave, int), SymbolFault> {
    if 0 <= i < s.len() && s[i] == '@' {
        if i + 1 < s.len() && digit_of(s[i + 1]) is Some {
            let d1 = digit_of(s[i + 1])->0;
            if i + 2 < s.len() && digit_of(s[i + 2]) is Some {
                let v = d1 * 10 + digit_of(s[i + 2])->0;
                if i + 3 < s.len() && digit_of(s[i + 3]) is Some {
                    Err(SymbolFault::InvalidOctave(s.subrange(i, s.len() as int)))
                } else if v > 10 {
                    Err(SymbolFault::InvalidOctave(s.subrange(i, s.len() as int)))
                } else {
                    Ok((octave_of_number(v as int), i + 3))
                }
            } else {
                Ok((octave_of_number(d1 as int), i + 2))
            }
        } else {
            Err(SymbolFault::InvalidOctave(s.subrange(i, s.len() as int)))
        }
    } else {
        Ok((Octave::Four, i))
    }
}

/// The inversion stage: `^` followed by a positive integer that fits in a
/// byte.
pub open spec fn inversion_stage(s: Seq<char>, i: int) -> Result<(u8, int), SymbolFault> {
    if 0 <= i < s.len() && s[i] == '^' {
        if i + 1 < s.len() && digit_of(s[i + 1]) is Some {
            let d1 = digit_of(s[i + 1])->0;
            if i + 2 < s.len() && digit_of(s[i + 2]) is Some {
                let d2 = digit_of(s[i + 2])->0;
                if i + 3 < s.len() && digit_of(s[i + 3]) is Some {
                    let v = d1 * 100 + d2 * 10 + digit_of(s[i + 3])->0;
                    if i + 4 < s.len() && digit_of(s[i + 4]) is Some {
                        Err(SymbolFault::InvalidInversion(s.subrange(i, s.len() as int)))
                    } else if v == 0 || v > 255 {
                        Err(SymbolFault::InvalidInversion(s.subrange(i, s.len() as int)))
                    } else {
                        Ok(((v as u8), i + 4))
                    }
                } else if d1 * 10 + d2 == 0 {
                    Err(SymbolFault::InvalidInversion(s.subrange(i, s.len() as int)))
                } else {
                    Ok((((d1 * 10 + d2) as u8), i + 3))
                }
            } else if d1 == 0 {
                Err(SymbolFault::InvalidInversion(s.subrange(i, s.len() as int)))
            } else {
                Ok((d1, i + 2))
            }
        } else {
            Err(SymbolFault::InvalidInversion(s.subrange(i, s.len() as int)))
        }
    } else {
        Ok((0u8, i))
    }
}

/// The crunch stage: a trailing `#`, consumed only when nothing else has
/// claimed it.
pub open spec fn crunch_stage(s: Seq<char>, i: int) -> (bool, int) {
    if 0 <= i < s.len() && s[i] == '#' {
        (true, i + 1)
    } else {
        (false, i)
    }
}

// ---------------------------------------------------------------------------
// The whole grammar.

/// What parsing a chord symbol yields: the chord's mathematical value, or
/// the first fault in grammar order.
pub open spec fn parse_spec(s: Seq<char>) -> Result<ChordView, SymbolFault> {
    match note_at(s, 0) {
        None => Err(SymbolFault::UnrecognizedRoot(s)),
        Some(rp) => {
            let ml = lex_mods(s, rp.1, seq![]);
            let el = lex_exts(s, ml.1, seq![]);
            if el.1 < s.len() && !is_delim(s[el.1]) {
                Err(SymbolFault::UnrecognizedModifierToken(s.subrange(el.1, s.len() as int)))
            } else {
                match slash_stage(s, el.1) {
                    Err(f) => Err(f),
                    Ok(sp) => match octave_stage(s, sp.1) {
                        Err(f) => Err(f),
                        Ok(op) => match inversion_stage(s, op.1) {
                            Err(f) => Err(f),
                            Ok(ip) => {
                                let cp = crunch_stage(s, ip.1);
                                if cp.1 < s.len() {
                                    Err(
                                        SymbolFault::TrailingGarbage(
                                            s.subrange(cp.1, s.len() as int),
                                        ),
                                    )
                                } else {
                                    Ok(
                                        ChordView {
                                            root: rp.0,
                                            octave: op.0,
                                            modifiers: ml.0,
                                            extensions: el.0,
                                            slash: sp.0,
                                            inversion: ip.0,
                                            crunch: cp.0,
                                        },
                                    )
                                }
                            },
                        },
                    },
                }
            }
        },
    }
}

/// The characters of a string, in order.
fn chars_vec(s: &str) -> (r: Vec<char>)
    ensures
        r@ == s@,
{
    let n = s.unicode_len();
    let mut v: Vec<char> = Vec::new();
    let mut i: usize = 0;
    while i < n
        invariant
            0 <= i <= n,
            n == s@.len(),
            v@ =~= s@.subrange(0, i as int),
        decreases n - i,
    {
        v.push(s.get_char(i));
        i += 1;
    }
    assert(v@ =~= s@);
    v
}

/// The tail of `s` from character position `i`, as an owned string.
fn tail_string(s: &str, i: usize) -> (r: String)
    requires
        i <= s@.len(),
    ensures
        r@ == s@.subrange(i as int, s@.len() as int),
{
    let n = s.unicode_len();
    let sub = s.substring_char(i, n);
    sub.to_owned()
}

/// The slash stage, executably: `/` and a note spelling.
fn slash_exec(s: &str, cs: &Vec<char>, i: usize) -> (r: Result<(Option<Note>, usize), ParseError>)
    requires
        cs@ == s@,
        i <= cs@.len(),
    ensures
        match r {
            Ok(p) => slash_stage(cs@, i as int) == Ok::<(Option<Note>, int), SymbolFault>(
                (p.0, p.1 as int),
            ) && i <= p.1 <= cs@.len() && match p.0 {
                Some(b) => note_wf(b),
                None => true,
            },
            Err(e) => slash_stage(cs@, i as int) is Err && fault_matches(
                e,
                slash_stage(cs@, i as int)->Err_0,
            ),
        },
{
    if i < cs.len() && cs[i] == '/' {
        match note_at_exec(cs, i + 1) {
            Some(p) => Ok((Some(p.0), p.1)),
            None => Err(ParseError::UnrecognizedRoot(tail_string(s, i + 1))),
        }
    } else {
        Ok((None, i))
    }
}

/// The octave stage, executably: `@` and an integer in `0..=10`.
fn octave_exec(s: &str, cs: &Vec<char>, i: usize) -> (r: Result<(Octave, usize), ParseError>)
    requires
        cs@ == s@,
        i <= cs@.len(),
    ensures
        match r {
            Ok(p) => octave_stage(cs@, i as int) == Ok::<(Octave, int), SymbolFault>(
                (p.0, p.1 as int),
            ) && i <= p.1 <= cs@.len(),
            Err(e) => octave_stage(cs@, i as int) is Err && fault_matches(
                e,
                octave_stage(cs@, i as int)->Err_0,
            ),
        },
{
    let n = cs.len();
    if i < n && cs[i] == '@' {
        let d1 = if i + 1 < n {
            digit_of_exec(cs[i + 1])
        } else {
            None
        };
        match d1 {
            None => Err(ParseError::InvalidOctave(tail_string(s, i))),
            Some(d1) => {
                let d2 = if i + 2 < n {
                    digit_of_exec(cs[i + 2])
                } else {
                    None
                };
                match d2 {
                    Some(d2) => {
                        let v = d1 * 10 + d2;
                        if i + 3 < n && digit_of_exec(cs[i + 3]).is_some() {
                            Err(ParseError::InvalidOctave(tail_string(s, i)))
                        } else if v > 10 {
                            Err(ParseError::InvalidOctave(tail_string(s, i)))
                        } else {
                            Ok((Octave::from_number(v), i + 3))
                        }
                    },
                    None => Ok((Octave::from_number(d1), i + 2)),
                }
            },
        }
    } else {
        Ok((Octave::Four, i))
    }
}

/// The inversion stage, executably: `^` and a positive count that fits in a
/// byte.
fn inversion_exec(s: &str, cs: &Vec<char>, i: usize) -> (r: Result<(u8, usize), ParseError>)
    requires
        cs@ == s@,
        i <= cs@.len(),
    ensures
        match r {
            Ok(p) => inversion_stage(cs@, i as int) == Ok::<(u8, int), SymbolFault>(
                (p.0, p.1 as int),
            ) && i <= p.1 <= cs@.len(),
            Err(e) => inversion_stage(cs@, i as int) is Err && fault_matches(
                e,
                inversion_stage(cs@, i as int)->Err_0,
            ),
        },
{
    let n = cs.len();
    if i < n && cs[i] == '^' {
        let d1 = if i + 1 < n {
            digit_of_exec(cs[i + 1])
        } else {
            None
        };
        match d1 {
            None => Err(ParseError::InvalidInversion(tail_string(s, i))),
            Some(d1) => {
                let d2 = if i + 2 < n {
                    digit_of_exec(cs[i + 2])
                } else {
                    None
                };
                match d2 {
                    Some(d2) => {
                        let d3 = if i + 3 < n {
                            digit_of_exec(cs[i + 3])
                        } else {
                            None
                        };
                        match d3 {
                            Some(d3) => {
                                let v: u32 = d1 as u32 * 100 + d2 as u32 * 10 + d3 as u32;
                                if i + 4 < n && digit_of_exec(cs[i + 4]).is_some() {
                                    Err(ParseError::InvalidInversion(tail_string(s, i)))
                                } else if v == 0 || v > 255 {
                                    Err(ParseError::InvalidInversion(tail_string(s, i)))
                                } else {
                                    Ok(((v as u8), i + 4))
                                }
                            },
                            None => {
                                let v = d1 * 10 + d2;
                                if v == 0 {
                                    Err(ParseError::InvalidInversion(tail_string(s, i)))
                                } else {
                                    Ok((v, i + 3))
                                }
                            },
                        }
                    },
                    None => {
                        if d1 == 0 {
                            Err(ParseError::InvalidInversion(tail_string(s, i)))
                        } else {
                            Ok((d1, i + 2))
                        }
                    },
                }
            },
        }
    } else {
        Ok((0u8, i))
    }
}

/// Parses a chord symbol, exactly as [`parse_spec`] states it.
///
/// The grammar, consumed left to right with only the root required: a root
/// note (letter and up to two accidentals, `#`/`♯` or `b`/`♭`), a greedy
/// longest-first run of modifier tokens, a run of extension tokens, `/` and
/// a slash note, `@` and an octave in `0..=10`, `^` and a positive inversion
/// count, and a trailing `#` setting the crunch flag.  Anything left over is
/// reported, with the offending substring, as the matching [`ParseError`].
pub fn parse(s: &str) -> (r: Result<Chord, ParseError>)
    ensures
        match r {
            Ok(c) => parse_spec(s@) == Ok::<ChordView, SymbolFault>(c@) && chord_wf(c@),
            Err(e) => parse_spec(s@) is Err && fault_matches(e, parse_spec(s@)->Err_0),
        },
{
    let cs = chars_vec(s);
    let n = cs.len();

    // Root.
    let (root, mut i) = match note_at_exec(&cs, 0) {
        Some(p) => p,
        None => {
            assert(s@.subrange(0, s@.len() as int) =~= s@);
            return Err(ParseError::UnrecognizedRoot(tail_string(s, 0)));
        },
    };
    let ghost i_root = i as int;

    // Modifier run.
    let mut ms: Vec<Modifier> = Vec::new();
    loop
        invariant_except_break
            i <= n,
            n == cs@.len(),
            cs@ == s@,
            lex_mods(cs@, i as int, ms@) == lex_mods(cs@, i_root, Seq::<Modifier>::empty()),
        ensures
            i <= n,
            n == cs@.len(),
            cs@ == s@,
            (ms@, i as int) == lex_mods(cs@, i_root, Seq::<Modifier>::empty()),
        decreases n - i,
    {
        match mod_tok_at_exec(&cs, i) {
            Some(p) => {
                apply_mod_tok_exec(&mut ms, p.1);
                i += p.0;
            },
            None => {
                assert(lex_mods(cs@, i as int, ms@) == (ms@, i as int));
                break ;
            },
        }
    }
    let ghost i_mods = i as int;

    // Extension run.
    let mut es: Vec<Extension> = Vec::new();
    loop
        invariant_except_break
            i <= n,
            n == cs@.len(),
            cs@ == s@,
            lex_exts(cs@, i as int, es@) == lex_exts(cs@, i_mods, Seq::<Extension>::empty()),
        ensures
            i <= n,
            n == cs@.len(),
            cs@ == s@,
            (es@, i as int) == lex_exts(cs@, i_mods, Seq::<Extension>::empty()),
        decreases n - i,
    {
        match ext_tok_at_exec(&cs, i) {
            Some(p) => {
                insert_ext(&mut es, p.1);
                i += p.0;
            },
            None => {
                assert(lex_exts(cs@, i as int, es@) == (es@, i as int));
                break ;
            },
        }
    }

    // Everything before a delimiter must have been consumed.
    if i < n && !(cs[i] == '/' || cs[i] == '@' || cs[i] == '^' || cs[i] == '#') {
        return Err(ParseError::UnrecognizedModifierToken(tail_string(s, i)));
    }

    // Slash note.
    let sl = match slash_exec(s, &cs, i) {
        Ok(p) => p,
        Err(e) => {
            return Err(e);
        },
    };
    let slash = sl.0;
    i = sl.1;

    // Octave.
    let op = match octave_exec(s, &cs, i) {
        Ok(p) => p,
        Err(e) => {
            return Err(e);
        },
    };
    let octave = op.0;
    i = op.1;

    // Inversion.
    let ip = match inversion_exec(s, &cs, i) {
        Ok(p) => p,
        Err(e) => {
            return Err(e);
        },
    };
    let inversion = ip.0;
    i = ip.1;

    // Crunch.
    let mut crunch = false;
    if i < n && cs[i] == '#' {
        crunch = true;
        i += 1;
    }

    // Nothing may remain.
    if i < n {
        return Err(ParseError::TrailingGarbage(tail_string(s, i)));
    }

    let c = Chord { root, octave, modifiers: ms, extensions: es, slash, inversion, crunch };
    assert(parse_spec(s@) == Ok::<ChordView, SymbolFault>(c@));
    Ok(c)
}

/// What a bare note spelling parses to: the note, provided the spelling
/// covers the whole input.
pub open spec fn whole_note(s: Seq<char>) -> Option<Note> {
    match note_at(s, 0) {
        Some(p) => {
            if p.1 == s.len() {
                Some(p.0)
            } else {
                None
            }
        },
        None => None,
    }
}

/// Parses a bare note spelling: the whole input must be one note.
pub fn parse_note(s: &str) -> (r: Result<Note, ParseError>)
    ensures
        match r {
            Ok(nt) => whole_note(s@) == Some(nt) && note_wf(nt),
            Err(e) => whole_note(s@) is None && (e matches ParseError::UnrecognizedRoot(t) && t@
                == s@),
        },
{
    let cs = chars_vec(s);
    match note_at_exec(&cs, 0) {
        Some(p) => {
            if p.1 == cs.len() {
                Ok(p.0)
            } else {
                Err(ParseError::UnrecognizedRoot(tail_string(s, 0)))
            }
        },
        None => Err(ParseError::UnrecognizedRoot(tail_string(s, 0))),
    }
}

/// Parsing is deterministic: any two results of parsing the same text are
/// equal, chord values and faults alike.
pub proof fn lemma_parse_deterministic(
    s: Seq<char>,
    r1: Result<ChordView, SymbolFault>,
    r2: Result<ChordView, SymbolFault>,
)
    requires
        r1 == parse_spec(s),
        r2 == parse_spec(s),
    ensures
        r1 == r2,
{
}

} // verus!
