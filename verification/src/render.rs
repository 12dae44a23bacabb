//! Rendering notes, tones and chords back to their canonical symbol text.

use vstd::prelude::*;
use vstd::string::StringExecFns;
use crate::note::{Note, Letter, Tone, note_wf};
use crate::octave::Octave;
use crate::modifier::{Modifier, Extension, modifier_name, extension_name};
use crate::chord::{Chord, ChordView, chord_wf};
use crate::guess::{mods_vocab, exts_vocab};

verus! {

/// The display text of a letter class.
pub open spec fn letter_lit(l: Letter) -> Seq<char> {
    match l {
        Letter::C => "C"@,
        Letter::D => "D"@,
        Letter::E => "E"@,
        Letter::F => "F"@,
        Letter::G => "G"@,
        Letter::A => "A"@,
        Letter::B => "B"@,
    }
}

/// The display text of an accidental offset: sharps or flats, ASCII.
pub open spec fn acc_lit(a: int) -> Seq<char> {
    if a == 0 {
        Seq::<char>::empty()
    } else if a == 1 {
        "#"@
    } else if a == 2 {
        "##"@
    } else if a == -1 {
        "b"@
    } else {
        "bb"@
    }
}

/// The canonical text of a note: its letter, then its accidentals.
pub open spec fn note_name(n: Note) -> Seq<char> {
    letter_lit(n.letter) + acc_lit(n.accidental as int)
}

/// The display text of an octave ordinal.
pub open spec fn oct_lit(o: Octave) -> Seq<char> {
    match o {
        Octave::Zero => "0"@,
        Octave::One => "1"@,
        Octave::Two => "2"@,
        Octave::Three => "3"@,
        Octave::Four => "4"@,
        Octave::Five => "5"@,
        Octave::Six => "6"@,
        Octave::Seven => "7"@,
        Octave::Eight => "8"@,
        Octave::Nine => "9"@,
        Octave::Ten => "10"@,
    }
}

/// The canonical text of a tone: note, then register.
pub open spec fn tone_name(t: Tone) -> Seq<char> {
    note_name(t.note) + oct_lit(t.octave)
}

/// The display text of a decimal digit.
pub open spec fn digit_lit(d: int) -> Seq<char> {
    if d == 0 {
        "0"@
    } else if d == 1 {
        "1"@
    } else if d == 2 {
        "2"@
    } else if d == 3 {
        "3"@
    } else if d == 4 {
        "4"@
    } else if d == 5 {
        "5"@
    } else if d == 6 {
        "6"@
    } else if d == 7 {
        "7"@
    } else if d == 8 {
        "8"@
    } else {
        "9"@
    }
}

/// The decimal text of a byte, no leading zeros.
pub open spec fn u8_dec(n: int) -> Seq<char> {
    if n >= 100 {
        digit_lit(n / 100) + digit_lit((n / 10) % 10) + digit_lit(n % 10)
    } else if n >= 10 {
        digit_lit(n / 10) + digit_lit(n % 10)
    } else {
        digit_lit(n)
    }
}

/// The modifier tokens of a chord, rendered in the fixed vocabulary order,
/// from vocabulary position `k` on.
pub open spec fn mods_render(ms: Seq<Modifier>, k: int) -> Seq<char>
    decreases 12 - k,
{
    if 0 <= k < 12 {
        (if ms.contains(mods_vocab()[k]) {
            modifier_name(mods_vocab()[k])
        } else {
            Seq::<char>::empty()
        }) + mods_render(ms, k + 1)
    } else {
        Seq::<char>::empty()
    }
}

/// The extension tokens of a chord, rendered in the fixed vocabulary order,
/// from vocabulary position `k` on.
pub open spec fn exts_render(es: Seq<Extension>, k: int) -> Seq<char>
    decreases 11 - k,
{
    if 0 <= k < 11 {
        (if es.contains(exts_vocab()[k]) {
            extension_name(exts_vocab()[k])
        } else {
            Seq::<char>::empty()
        }) + exts_render(es, k + 1)
    } else {
        Seq::<char>::empty()
    }
}

/// The canonical symbol text of a chord: root, modifier tokens, extension
/// tokens, slash note, octave (omitted in the default register four),
/// inversion count (omitted when zero), crunch marker.
pub open spec fn chord_name(cv: ChordView) -> Seq<char> {
    note_name(cv.root) + mods_render(cv.modifiers, 0) + exts_render(cv.extensions, 0) + (match cv.slash {
        Some(b) => "/"@ + note_name(b),
        None => Seq::<char>::empty(),
    }) + (if cv.octave == Octave::Four {
        Seq::<char>::empty()
    } else {
        "@"@ + oct_lit(cv.octave)
    }) + (if cv.inversion == 0 {
        Seq::<char>::empty()
    } else {
        "^"@ + u8_dec(cv.inversion as int)
    }) + (if cv.crunch {
        "#"@
    } else {
        Seq::<char>::empty()
    })
}

fn letter_str(l: Letter) -> (r: &'static str)
    ensures
        r@ == letter_lit(l),
{
    match l {
        Letter::C => "C",
        Letter::D => "D",
        Letter::E => "E",
        Letter::F => "F",
        Letter::G => "G",
        Letter::A => "A",
        Letter::B => "B",
    }
}

fn digit_str(d: u8) -> (r: &'static str)
    ensures
        r@ == digit_lit(d as int),
{
    match d {
        0 => "0",
        1 => "1",
        2 => "2",
        3 => "3",
        4 => "4",
        5 => "5",
        6 => "6",
        7 => "7",
        8 => "8",
        _ => "9",
    }
}

fn oct_str(o: Octave) -> (r: &'static str)
    ensures
        r@ == oct_lit(o),
{
    match o {
        Octave::Zero => "0",
        Octave::One => "1",
        Octave::Two => "2",
        Octave::Three => "3",
        Octave::Four => "4",
        Octave::Five => "5",
        Octave::Six => "6",
        Octave::Seven => "7",
        Octave::Eight => "8",
        Octave::Nine => "9",
        Octave::Ten => "10",
    }
}

/// Appends the canonical text of a note.
fn push_note_name(out: &mut String, n: Note)
    requires
        note_wf(n),
    ensures
        final(out)@ == old(out)@ + note_name(n),
{
    out.append(letter_str(n.letter));
    if n.accidental == 1 {
        out.append("#");
    } else if n.accidental == 2 {
        out.append("##");
    } else if n.accidental == -1 {
        out.append("b");
    } else if n.accidental == -2 {
        out.append("bb");
    }
    assert(out@ =~= old(out)@ + note_name(n));
}

impl Note {
    /// The canonical text of this note, parsable back to an equal note.
    pub fn name(&self) -> (r: String)
        requires
            note_wf(*self),
        ensures
            r@ == note_name(*self),
    {
        let mut out = String::new();
        push_note_name(&mut out, *self);
        assert(out@ =~= note_name(*self));
        out
    }
}

impl Tone {
    /// The canonical text of this tone: its note, then its register.
    pub fn name(&self) -> (r: String)
        requires
            note_wf(self.note),
        ensures
            r@ == tone_name(*self),
    {
        let mut out = String::new();
        push_note_name(&mut out, self.note);
        out.append(oct_str(self.octave));
        assert(out@ =~= tone_name(*self));
        out
    }
}

/// Appends the modifier tokens present, in vocabulary order.
fn push_mods(out: &mut String, ms: &Vec<Modifier>)
    ensures
        final(out)@ == old(out)@ + mods_render(ms@, 0),
{
    let vm = crate::guess::mods_list();
    let mut k: usize = 0;
    let ghost base = out@;
    while k < 12
        invariant
            0 <= k <= 12,
            vm@ == mods_vocab(),
            out@ + mods_render(ms@, k as int) == base + mods_render(ms@, 0),
        decreases 12 - k,
    {
        if crate::modifier::contains_mod(ms, vm[k]) {
            out.append(vm[k].static_name());
        }
        k += 1;
    }
    assert(mods_render(ms@, 12) =~= Seq::<char>::empty());
    assert(out@ =~= base + mods_render(ms@, 0));
}

/// Appends the extension tokens present, in vocabulary order.
fn push_exts(out: &mut String, es: &Vec<Extension>)
    ensures
        final(out)@ == old(out)@ + exts_render(es@, 0),
{
    let ve = crate::guess::exts_list();
    let mut k: usize = 0;
    let ghost base = out@;
    while k < 11
        invariant
            0 <= k <= 11,
            ve@ == exts_vocab(),
            out@ + exts_render(es@, k as int) == base + exts_render(es@, 0),
        decreases 11 - k,
    {
        if crate::modifier::contains_ext(es, ve[k]) {
            out.append(ve[k].static_name());
        }
        k += 1;
    }
    assert(exts_render(es@, 11) =~= Seq::<char>::empty());
    assert(out@ =~= base + exts_render(es@, 0));
}

/// Appends the decimal text of a byte.
fn push_u8(out: &mut String, n: u8)
    ensures
        final(out)@ == old(out)@ + u8_dec(n as int),
{
    if n >= 100 {
        out.append(digit_str(n / 100));
        out.append(digit_str((n / 10) % 10));
        out.append(digit_str(n % 10));
    } else if n >= 10 {
        out.append(digit_str(n / 10));
        out.append(digit_str(n % 10));
    } else {
        out.append(digit_str(n));
    }
    assert(out@ =~= old(out)@ + u8_dec(n as int));
}

impl Chord {
    /// The canonical symbol text of this chord.
    ///
    /// The text re-parses under the chord grammar; note that a symbol whose
    /// first modifier token begins with an accidental mark (a bare `♭5`, say,
    /// right after the root) is claimed by the root's greedy accidental run
    /// instead, so re-parsing is faithful to pitch content only when some
    /// letter-initial token stands between root and such a mark.
    #[verifier::rlimit(50)]
    pub fn name(&self) -> (r: String)
        requires
            chord_wf(self@),
        ensures
            r@ == chord_name(self@),
    {
        let mut out = String::new();
        push_note_name(&mut out, self.root);
        push_mods(&mut out, &self.modifiers);
        push_exts(&mut out, &self.extensions);

        // Slash note.
        match self.slash {
            Some(b) => {
                out.append("/");
                push_note_name(&mut out, b);
            },
            None => {},
        }

        // Octave, unless it is the default register.
        let is_four = matches!(self.octave, Octave::Four);
        if !is_four {
            out.append("@");
            out.append(oct_str(self.octave));
        }

        // Inversion, if any.
        if self.inversion > 0 {
            out.append("^");
            push_u8(&mut out, self.inversion);
        }

        // Crunch marker.
        if self.crunch {
            out.append("#");
        }
        assert(out@ =~= chord_name(self@));
        out
    }
}


/// Text interchange for notes: the canonical text of a well-formed note
/// parses back to exactly that note.
pub proof fn lemma_note_name_reparses(n: Note)
    requires
        note_wf(n),
    ensures
        crate::parser::whole_note(note_name(n)) == Some(n),
{
    reveal_strlit("C");
    reveal_strlit("D");
    reveal_strlit("E");
    reveal_strlit("F");
    reveal_strlit("G");
    reveal_strlit("A");
    reveal_strlit("B");
    reveal_strlit("#");
    reveal_strlit("##");
    reveal_strlit("b");
    reveal_strlit("bb");
    if n.accidental == 0 {
        assert(note_name(n).len() == 1);
    } else if n.accidental == 1 || n.accidental == -1 {
        assert(note_name(n).len() == 2);
    } else {
        assert(note_name(n).len() == 3);
    }
}

} // verus!
