//! The chord model and the derivation engine that turns a chord into its
//! ordered list of constituent tones.

use vstd::prelude::*;
use crate::note::{Note, Tone, note_wf, spelled_interval, spell_interval};
use crate::octave::{Octave, RangeError, octave_number, octave_of_number};
use crate::modifier::{Degree, Modifier, Extension, contains_mod, contains_ext};

verus! {

/// A chord: a root note in a register, harmonic modifiers and extensions,
/// an optional slash (bass) note, an inversion count (`0` meaning none), and
/// a crunch flag that collapses the register spread of the derived tones.
///
/// Chords are immutable value objects; the modifier and extension lists carry
/// set semantics (membership is what matters, duplicates are idempotent).
#[derive(Clone, Debug, PartialEq)]
pub struct Chord {
    pub root: Note,
    pub octave: Octave,
    pub modifiers: Vec<Modifier>,
    pub extensions: Vec<Extension>,
    pub slash: Option<Note>,
    pub inversion: u8,
    pub crunch: bool,
}

/// The mathematical value of a [`Chord`].
pub struct ChordView {
    pub root: Note,
    pub octave: Octave,
    pub modifiers: Seq<Modifier>,
    pub extensions: Seq<Extension>,
    pub slash: Option<Note>,
    pub inversion: u8,
    pub crunch: bool,
}

impl View for Chord {
    type V = ChordView;

    open spec fn view(&self) -> ChordView {
        ChordView {
            root: self.root,
            octave: self.octave,
            modifiers: self.modifiers@,
            extensions: self.extensions@,
            slash: self.slash,
            inversion: self.inversion,
            crunch: self.crunch,
        }
    }
}

/// A chord is well formed when its root and its slash note, if any, are well
/// formed spellings.
pub open spec fn chord_wf(cv: ChordView) -> bool {
    &&& note_wf(cv.root)
    &&& match cv.slash {
        Some(b) => note_wf(b),
        None => true,
    }
}

/// Failures of the derivation engine; they are reported, never silently
/// corrected.
#[derive(PartialEq, Eq, Copy, Clone, Hash, Debug, Structural)]
pub enum DerivationError {
    /// Two modifiers or extensions assign different intervals to the same
    /// scale degree, leaving the interval table ambiguous.
    ConflictingModifiers,
    /// The inversion count is at least the number of derived tones.
    InvalidInversion,
    /// Placing a tone would leave the octave range.
    Range(RangeError),
}

pub open spec fn has_m(cv: ChordView, m: Modifier) -> bool {
    cv.modifiers.contains(m)
}

pub open spec fn has_e(cv: ChordView, e: Extension) -> bool {
    cv.extensions.contains(e)
}

/// Whether any dominant-type seventh is present.
pub open spec fn has_dominant(cv: ChordView) -> bool {
    ||| has_m(cv, Modifier::Dominant(Degree::Seven))
    ||| has_m(cv, Modifier::Dominant(Degree::Nine))
    ||| has_m(cv, Modifier::Dominant(Degree::Eleven))
    ||| has_m(cv, Modifier::Dominant(Degree::Thirteen))
}

pub open spec fn has_dominant_ge9(cv: ChordView) -> bool {
    ||| has_m(cv, Modifier::Dominant(Degree::Nine))
    ||| has_m(cv, Modifier::Dominant(Degree::Eleven))
    ||| has_m(cv, Modifier::Dominant(Degree::Thirteen))
}

pub open spec fn has_dominant_ge11(cv: ChordView) -> bool {
    ||| has_m(cv, Modifier::Dominant(Degree::Eleven))
    ||| has_m(cv, Modifier::Dominant(Degree::Thirteen))
}

pub open spec fn has_dominant_ge13(cv: ChordView) -> bool {
    has_m(cv, Modifier::Dominant(Degree::Thirteen))
}

/// Whether the modifier and extension sets assign two different intervals to
/// one scale degree.  Such a chord has no deterministic interval table and is
/// rejected by the derivation engine.
pub open spec fn conflicting(cv: ChordView) -> bool {
    ||| (has_m(cv, Modifier::Flat5) && has_m(cv, Modifier::Augmented5))
    ||| (has_m(cv, Modifier::Major7) && has_dominant(cv))
    ||| (has_m(cv, Modifier::Flat9) && has_m(cv, Modifier::Sharp9))
    ||| (has_e(cv, Extension::Flat11) && has_m(cv, Modifier::Sharp11))
    ||| (has_e(cv, Extension::Flat13) && has_e(cv, Extension::Sharp13))
}

// The interval table: one entry per scale-degree slot, each a semitone offset
// from the root.  The union of the modifiers and extensions present fills the
// slots, with the override order fixed below.

pub open spec fn second_offset(cv: ChordView) -> Option<u8> {
    if has_e(cv, Extension::Add2) {
        Some(2u8)
    } else {
        None
    }
}

/// The third's slot: a sus interval wins over any triad third, `Sus4` over
/// `Sus2`; a minor or diminished chord lowers the major third.
pub open spec fn third_offset(cv: ChordView) -> Option<u8> {
    if has_e(cv, Extension::Sus4) {
        Some(5u8)
    } else if has_e(cv, Extension::Sus2) {
        Some(2u8)
    } else if has_m(cv, Modifier::Minor) || has_m(cv, Modifier::Diminished) {
        Some(3u8)
    } else {
        Some(4u8)
    }
}

/// The letter distance of the third's slot: a sus tone is spelled as the
/// second or fourth it is, not as an altered third.
pub open spec fn third_steps(cv: ChordView) -> u8 {
    if has_e(cv, Extension::Sus4) {
        3u8
    } else if has_e(cv, Extension::Sus2) {
        1u8
    } else {
        2u8
    }
}

pub open spec fn fourth_offset(cv: ChordView) -> Option<u8> {
    if has_e(cv, Extension::Add4) {
        Some(5u8)
    } else {
        None
    }
}

pub open spec fn fifth_offset(cv: ChordView) -> Option<u8> {
    if has_m(cv, Modifier::Diminished) || has_m(cv, Modifier::Flat5) {
        Some(6u8)
    } else if has_m(cv, Modifier::Augmented5) {
        Some(8u8)
    } else {
        Some(7u8)
    }
}

pub open spec fn sixth_offset(cv: ChordView) -> Option<u8> {
    if has_e(cv, Extension::Add6) {
        Some(9u8)
    } else {
        None
    }
}

/// The seventh's slot: a major seventh or a dominant seventh when asked for;
/// a diminished chord carries its diminished seventh unless an explicit
/// seventh is present.
pub open spec fn seventh_offset(cv: ChordView) -> Option<u8> {
    if has_m(cv, Modifier::Major7) {
        Some(11u8)
    } else if has_dominant(cv) {
        Some(10u8)
    } else if has_m(cv, Modifier::Diminished) {
        Some(9u8)
    } else {
        None
    }
}

pub open spec fn ninth_offset(cv: ChordView) -> Option<u8> {
    if has_m(cv, Modifier::Flat9) {
        Some(13u8)
    } else if has_m(cv, Modifier::Sharp9) {
        Some(15u8)
    } else if has_dominant_ge9(cv) || has_e(cv, Extension::Add9) {
        Some(14u8)
    } else {
        None
    }
}

pub open spec fn eleventh_offset(cv: ChordView) -> Option<u8> {
    if has_m(cv, Modifier::Sharp11) {
        Some(18u8)
    } else if has_e(cv, Extension::Flat11) {
        Some(16u8)
    } else if has_dominant_ge11(cv) || has_e(cv, Extension::Add11) {
        Some(17u8)
    } else {
        None
    }
}

pub open spec fn thirteenth_offset(cv: ChordView) -> Option<u8> {
    if has_e(cv, Extension::Flat13) {
        Some(20u8)
    } else if has_e(cv, Extension::Sharp13) {
        Some(22u8)
    } else if has_dominant_ge13(cv) || has_e(cv, Extension::Add13) {
        Some(21u8)
    } else {
        None
    }
}

/// The tone standing `steps` letter steps and `off` semitones above a root
/// placed in octave `oct`, in the register the stacked interval implies.
pub open spec fn tone_of(root: Note, oct: Octave, steps: u8, off: u8) -> Tone {
    Tone {
        note: spelled_interval(root, steps as int, off as int),
        octave: octave_of_number(octave_number(oct) + (off / 12) as int),
    }
}

pub open spec fn opt_tone(root: Note, oct: Octave, steps: u8, o: Option<u8>) -> Seq<Tone> {
    match o {
        Some(off) => seq![tone_of(root, oct, steps, off)],
        None => seq![],
    }
}

pub open spec fn slot_overflows(oct: Octave, o: Option<u8>) -> bool {
    match o {
        Some(off) => octave_number(oct) + (off / 12) as int > 10,
        None => false,
    }
}

/// The stacked tone sequence before slash, inversion and crunch: the filled
/// slots in ascending scale-degree order, the root first.
pub open spec fn base_tones(cv: ChordView) -> Seq<Tone> {
    seq![tone_of(cv.root, cv.octave, 0u8, 0u8)] + opt_tone(
        cv.root,
        cv.octave,
        1u8,
        second_offset(cv),
    ) + opt_tone(cv.root, cv.octave, third_steps(cv), third_offset(cv)) + opt_tone(
        cv.root,
        cv.octave,
        3u8,
        fourth_offset(cv),
    ) + opt_tone(cv.root, cv.octave, 4u8, fifth_offset(cv)) + opt_tone(
        cv.root,
        cv.octave,
        5u8,
        sixth_offset(cv),
    ) + opt_tone(cv.root, cv.octave, 6u8, seventh_offset(cv)) + opt_tone(
        cv.root,
        cv.octave,
        8u8,
        ninth_offset(cv),
    ) + opt_tone(cv.root, cv.octave, 10u8, eleventh_offset(cv)) + opt_tone(
        cv.root,
        cv.octave,
        12u8,
        thirteenth_offset(cv),
    )
}

/// Whether stacking any filled slot would leave the octave range.
pub open spec fn base_overflows(cv: ChordView) -> bool {
    ||| slot_overflows(cv.octave, second_offset(cv))
    ||| slot_overflows(cv.octave, third_offset(cv))
    ||| slot_overflows(cv.octave, fourth_offset(cv))
    ||| slot_overflows(cv.octave, fifth_offset(cv))
    ||| slot_overflows(cv.octave, sixth_offset(cv))
    ||| slot_overflows(cv.octave, seventh_offset(cv))
    ||| slot_overflows(cv.octave, ninth_offset(cv))
    ||| slot_overflows(cv.octave, eleventh_offset(cv))
    ||| slot_overflows(cv.octave, thirteenth_offset(cv))
}

/// The slash note as lowest tone, one octave below the root.
pub open spec fn slash_prefix(cv: ChordView) -> Seq<Tone> {
    match cv.slash {
        Some(b) => seq![
            Tone { note: b, octave: octave_of_number(octave_number(cv.octave) - 1) },
        ],
        None => seq![],
    }
}

/// Whether rotating the lowest `n` tones up an octave would overflow.
pub open spec fn bump_overflows(s: Seq<Tone>, n: int) -> bool {
    exists|k: int| 0 <= k < n && octave_number(s[k].octave) == 10
}

/// The inversion: the lowest `n` tones move to the end, an octave higher,
/// relative order preserved.
pub open spec fn rotated(s: Seq<Tone>, n: int) -> Seq<Tone> {
    s.subrange(n, s.len() as int) + Seq::new(
        n as nat,
        |k: int| Tone { note: s[k].note, octave: octave_of_number(octave_number(s[k].octave) + 1) },
    )
}

/// The crunch: every tone rewritten into the root's register, pitch classes
/// and order untouched.
pub open spec fn crunched(s: Seq<Tone>, o: Octave) -> Seq<Tone> {
    Seq::new(s.len(), |k: int| Tone { note: s[k].note, octave: o })
}

/// What the derivation engine returns for a chord: the ordered tone sequence,
/// or the first failure in the fixed order conflict check, stacking, slash
/// placement, inversion bound, inversion rotation.
pub open spec fn derive_spec(cv: ChordView) -> Result<Seq<Tone>, DerivationError> {
    if conflicting(cv) {
        Err(DerivationError::ConflictingModifiers)
    } else if base_overflows(cv) {
        Err(DerivationError::Range(RangeError::OctaveOverflow))
    } else if cv.slash is Some && octave_number(cv.octave) == 0 {
        Err(DerivationError::Range(RangeError::OctaveUnderflow))
    } else {
        let placed = slash_prefix(cv) + base_tones(cv);
        if cv.inversion as int >= placed.len() {
            Err(DerivationError::InvalidInversion)
        } else if bump_overflows(placed, cv.inversion as int) {
            Err(DerivationError::Range(RangeError::OctaveOverflow))
        } else {
            let rot = rotated(placed, cv.inversion as int);
            if cv.crunch {
                Ok(crunched(rot, cv.octave))
            } else {
                Ok(rot)
            }
        }
    }
}

/// Appends the tone of one filled slot, or reports that its register would
/// overflow.
fn push_slot(root: Note, oct: Octave, base: &mut Vec<Tone>, steps: u8, o: Option<u8>) -> (r:
    Result<(), DerivationError>)
    requires
        note_wf(root),
        steps <= 12,
        o is Some ==> o->0 <= 24,
        forall|j: int| 0 <= j < old(base)@.len() ==> note_wf(old(base)@[j].note),
    ensures
        match r {
            Ok(()) => {
                &&& !slot_overflows(oct, o)
                &&& final(base)@ == old(base)@ + opt_tone(root, oct, steps, o)
                &&& forall|j: int| 0 <= j < final(base)@.len() ==> note_wf(final(base)@[j].note)
            },
            Err(e) => {
                &&& e == DerivationError::Range(RangeError::OctaveOverflow)
                &&& slot_overflows(oct, o)
            },
        },
{
    match o {
        Some(off) => {
            match oct.checked_add_i8((off / 12) as i8) {
                Ok(oc) => {
                    let n = spell_interval(root, steps, off);
                    base.push(Tone { note: n, octave: oc });
                    assert(base@ =~= old(base)@ + opt_tone(root, oct, steps, o));
                    Ok(())
                },
                Err(_) => Err(DerivationError::Range(RangeError::OctaveOverflow)),
            }
        },
        None => {
            assert(base@ =~= old(base)@ + opt_tone(root, oct, steps, o));
            Ok(())
        },
    }
}

/// Rotates the lowest `n` tones to the end, an octave higher, or reports the
/// register overflow that the rotation would cause.
fn rotate_tones(placed: &Vec<Tone>, n: usize) -> (r: Result<Vec<Tone>, DerivationError>)
    requires
        n < placed@.len(),
        forall|j: int| 0 <= j < placed@.len() ==> note_wf(placed@[j].note),
    ensures
        match r {
            Ok(v) => {
                &&& !bump_overflows(placed@, n as int)
                &&& v@ == rotated(placed@, n as int)
                &&& forall|j: int| 0 <= j < v@.len() ==> note_wf(v@[j].note)
            },
            Err(e) => {
                &&& e == DerivationError::Range(RangeError::OctaveOverflow)
                &&& bump_overflows(placed@, n as int)
            },
        },
{
    let mut rot: Vec<Tone> = Vec::new();
    let mut i: usize = n;
    while i < placed.len()
        invariant
            n <= i <= placed@.len(),
            rot@ =~= placed@.subrange(n as int, i as int),
            forall|j: int| 0 <= j < placed@.len() ==> note_wf(placed@[j].note),
        decreases placed@.len() - i,
    {
        rot.push(placed[i]);
        i += 1;
    }
    let mut k: usize = 0;
    while k < n
        invariant
            0 <= k <= n,
            n < placed@.len(),
            rot@ =~= placed@.subrange(n as int, placed@.len() as int) + Seq::new(
                k as nat,
                |j: int| Tone {
                    note: placed@[j].note,
                    octave: octave_of_number(octave_number(placed@[j].octave) + 1),
                },
            ),
            forall|j: int| 0 <= j < k ==> octave_number(placed@[j].octave) != 10,
            forall|j: int| 0 <= j < placed@.len() ==> note_wf(placed@[j].note),
        decreases n - k,
    {
        match placed[k].octave.checked_add_i8(1) {
            Ok(oc) => {
                rot.push(Tone { note: placed[k].note, octave: oc });
            },
            Err(_) => {
                proof {
                    assert(octave_number(placed@[k as int].octave) == 10);
                    assert(bump_overflows(placed@, n as int));
                }
                return Err(DerivationError::Range(RangeError::OctaveOverflow));
            },
        }
        k += 1;
    }
    assert(rot@ =~= rotated(placed@, n as int));
    assert(forall|j: int| 0 <= j < rot@.len() ==> note_wf(rot@[j].note));
    Ok(rot)
}

/// Rewrites every tone into the register `o`.
fn crunch_tones(rot: &Vec<Tone>, o: Octave) -> (v: Vec<Tone>)
    requires
        forall|j: int| 0 <= j < rot@.len() ==> note_wf(rot@[j].note),
    ensures
        v@ == crunched(rot@, o),
        forall|j: int| 0 <= j < v@.len() ==> note_wf(v@[j].note),
{
    let mut cr: Vec<Tone> = Vec::new();
    let mut i: usize = 0;
    while i < rot.len()
        invariant
            0 <= i <= rot@.len(),
            cr@ =~= crunched(rot@, o).subrange(0, i as int),
            forall|j: int| 0 <= j < rot@.len() ==> note_wf(rot@[j].note),
            forall|j: int| 0 <= j < cr@.len() ==> note_wf(cr@[j].note),
        decreases rot@.len() - i,
    {
        cr.push(Tone { note: rot[i].note, octave: o });
        i += 1;
    }
    assert(cr@ =~= crunched(rot@, o));
    cr
}

/// The computed interval table of a chord: one optional semitone offset per
/// scale-degree slot.
struct SlotOffsets {
    second: Option<u8>,
    third: Option<u8>,
    fourth: Option<u8>,
    fifth: Option<u8>,
    sixth: Option<u8>,
    seventh: Option<u8>,
    ninth: Option<u8>,
    eleventh: Option<u8>,
    thirteenth: Option<u8>,
}

impl Chord {
    /// A plain chord on the given root: default register four, no modifiers,
    /// no extensions, no slash, no inversion, no crunch.
    pub fn new(root: Note) -> (c: Chord)
        ensures
            c@.root == root,
            c@.octave == Octave::Four,
            c@.modifiers == Seq::<Modifier>::empty(),
            c@.extensions == Seq::<Extension>::empty(),
            c@.slash is None,
            c@.inversion == 0,
            !c@.crunch,
    {
        Chord {
            root,
            octave: Octave::Four,
            modifiers: Vec::new(),
            extensions: Vec::new(),
            slash: None,
            inversion: 0,
            crunch: false,
        }
    }

    /// The same chord with its root placed in another register.
    pub fn with_octave(self, o: Octave) -> (c: Chord)
        ensures
            c@ == (ChordView { octave: o, ..self@ }),
    {
        Chord { octave: o, ..self }
    }

    /// The same chord with another inversion count.
    pub fn with_inversion(self, n: u8) -> (c: Chord)
        ensures
            c@ == (ChordView { inversion: n, ..self@ }),
    {
        Chord { inversion: n, ..self }
    }

    /// The same chord with another slash note.
    pub fn with_slash(self, b: Note) -> (c: Chord)
        ensures
            c@ == (ChordView { slash: Some(b), ..self@ }),
    {
        Chord { slash: Some(b), ..self }
    }

    /// The same chord with the crunch flag set.
    pub fn with_crunch(self) -> (c: Chord)
        ensures
            c@ == (ChordView { crunch: true, ..self@ }),
    {
        Chord { crunch: true, ..self }
    }

    fn has_mod(&self, m: Modifier) -> (r: bool)
        ensures
            r == has_m(self@, m),
    {
        contains_mod(&self.modifiers, m)
    }

    fn has_ext(&self, e: Extension) -> (r: bool)
        ensures
            r == has_e(self@, e),
    {
        contains_ext(&self.extensions, e)
    }

    fn has_dom(&self) -> (r: bool)
        ensures
            r == has_dominant(self@),
    {
        self.has_mod(Modifier::Dominant(Degree::Seven)) || self.has_mod(
            Modifier::Dominant(Degree::Nine),
        ) || self.has_mod(Modifier::Dominant(Degree::Eleven)) || self.has_mod(
            Modifier::Dominant(Degree::Thirteen),
        )
    }

    /// Whether this chord's modifier and extension sets conflict; see
    /// [`conflicting`].
    pub fn has_conflict(&self) -> (r: bool)
        ensures
            r == conflicting(self@),
    {
        (self.has_mod(Modifier::Flat5) && self.has_mod(Modifier::Augmented5)) || (self.has_mod(
            Modifier::Major7,
        ) && self.has_dom()) || (self.has_mod(Modifier::Flat9) && self.has_mod(Modifier::Sharp9))
            || (self.has_ext(Extension::Flat11) && self.has_mod(Modifier::Sharp11)) || (
        self.has_ext(Extension::Flat13) && self.has_ext(Extension::Sharp13))
    }

    /// Computes the interval table of this chord.
    fn offsets(&self) -> (t: SlotOffsets)
        ensures
            t.second == second_offset(self@),
            t.third == third_offset(self@),
            t.fourth == fourth_offset(self@),
            t.fifth == fifth_offset(self@),
            t.sixth == sixth_offset(self@),
            t.seventh == seventh_offset(self@),
            t.ninth == ninth_offset(self@),
            t.eleventh == eleventh_offset(self@),
            t.thirteenth == thirteenth_offset(self@),
    {
        let second = if self.has_ext(Extension::Add2) {
            Some(2u8)
        } else {
            None
        };
        let third = if self.has_ext(Extension::Sus4) {
            Some(5u8)
        } else if self.has_ext(Extension::Sus2) {
            Some(2u8)
        } else if self.has_mod(Modifier::Minor) || self.has_mod(Modifier::Diminished) {
            Some(3u8)
        } else {
            Some(4u8)
        };
        let fourth = if self.has_ext(Extension::Add4) {
            Some(5u8)
        } else {
            None
        };
        let fifth = if self.has_mod(Modifier::Diminished) || self.has_mod(Modifier::Flat5) {
            Some(6u8)
        } else if self.has_mod(Modifier::Augmented5) {
            Some(8u8)
        } else {
            Some(7u8)
        };
        let sixth = if self.has_ext(Extension::Add6) {
            Some(9u8)
        } else {
            None
        };
        let seventh = if self.has_mod(Modifier::Major7) {
            Some(11u8)
        } else if self.has_dom() {
            Some(10u8)
        } else if self.has_mod(Modifier::Diminished) {
            Some(9u8)
        } else {
            None
        };
        let ninth = if self.has_mod(Modifier::Flat9) {
            Some(13u8)
        } else if self.has_mod(Modifier::Sharp9) {
            Some(15u8)
        } else if self.has_mod(Modifier::Dominant(Degree::Nine)) || self.has_mod(
            Modifier::Dominant(Degree::Eleven),
        ) || self.has_mod(Modifier::Dominant(Degree::Thirteen)) || self.has_ext(Extension::Add9) {
            Some(14u8)
        } else {
            None
        };
        let eleventh = if self.has_mod(Modifier::Sharp11) {
            Some(18u8)
        } else if self.has_ext(Extension::Flat11) {
            Some(16u8)
        } else if self.has_mod(Modifier::Dominant(Degree::Eleven)) || self.has_mod(
            Modifier::Dominant(Degree::Thirteen),
        ) || self.has_ext(Extension::Add11) {
            Some(17u8)
        } else {
            None
        };
        let thirteenth = if self.has_ext(Extension::Flat13) {
            Some(20u8)
        } else if self.has_ext(Extension::Sharp13) {
            Some(22u8)
        } else if self.has_mod(Modifier::Dominant(Degree::Thirteen)) || self.has_ext(
            Extension::Add13,
        ) {
            Some(21u8)
        } else {
            None
        };
        SlotOffsets { second, third, fourth, fifth, sixth, seventh, ninth, eleventh, thirteenth }
    }

    /// Stacks the filled slots into tones, the root first, or reports the
    /// register overflow that stacking would cause.
    #[verifier::rlimit(50)]
    fn build_base(&self) -> (r: Result<Vec<Tone>, DerivationError>)
        requires
            chord_wf(self@),
        ensures
            match r {
                Ok(v) => {
                    &&& !base_overflows(self@)
                    &&& v@ == base_tones(self@)
                    &&& forall|j: int| 0 <= j < v@.len() ==> note_wf(v@[j].note)
                },
                Err(e) => {
                    &&& e == DerivationError::Range(RangeError::OctaveOverflow)
                    &&& base_overflows(self@)
                },
            },
    {
        let t = self.offsets();
        let mut base: Vec<Tone> = Vec::new();
        proof {
            crate::octave::lemma_octave_number_roundtrip(self@.octave);
            crate::note::lemma_spelled_interval_root(self@.root);
        }
        base.push(Tone { note: self.root, octave: self.octave });
        assert(base@ =~= seq![tone_of(self@.root, self@.octave, 0u8, 0u8)]);

        if let Err(e) = push_slot(self.root, self.octave, &mut base, 1, t.second) {
            return Err(e);
        }
        let tsteps: u8 = if self.has_ext(Extension::Sus4) {
            3
        } else if self.has_ext(Extension::Sus2) {
            1
        } else {
            2
        };
        if let Err(e) = push_slot(self.root, self.octave, &mut base, tsteps, t.third) {
            return Err(e);
        }
        if let Err(e) = push_slot(self.root, self.octave, &mut base, 3, t.fourth) {
            return Err(e);
        }
        if let Err(e) = push_slot(self.root, self.octave, &mut base, 4, t.fifth) {
            return Err(e);
        }
        if let Err(e) = push_slot(self.root, self.octave, &mut base, 5, t.sixth) {
            return Err(e);
        }
        if let Err(e) = push_slot(self.root, self.octave, &mut base, 6, t.seventh) {
            return Err(e);
        }
        if let Err(e) = push_slot(self.root, self.octave, &mut base, 8, t.ninth) {
            return Err(e);
        }
        if let Err(e) = push_slot(self.root, self.octave, &mut base, 10, t.eleventh) {
            return Err(e);
        }
        if let Err(e) = push_slot(self.root, self.octave, &mut base, 12, t.thirteenth) {
            return Err(e);
        }
        assert(!base_overflows(self@));
        assert(base@ =~= base_tones(self@));
        Ok(base)
    }

    /// Derives the ordered tone sequence of this chord, exactly as
    /// [`derive_spec`] states it; every derived tone is a well-formed
    /// spelling.
    #[verifier::rlimit(50)]
    pub fn derive(&self) -> (r: Result<Vec<Tone>, DerivationError>)
        requires
            chord_wf(self@),
        ensures
            match r {
                Ok(v) => derive_spec(self@) == Ok::<Seq<Tone>, DerivationError>(v@) && (forall|
                    i: int,
                |
                    0 <= i < v@.len() ==> note_wf(v@[i].note)),
                Err(e) => derive_spec(self@) == Err::<Seq<Tone>, DerivationError>(e),
            },
    {
        if self.has_conflict() {
            return Err(DerivationError::ConflictingModifiers);
        }
        let base = match self.build_base() {
            Ok(v) => v,
            Err(e) => {
                return Err(e);
            },
        };

        // Place the slash note, if any, one octave below the root.
        let mut placed: Vec<Tone> = Vec::new();
        match self.slash {
            Some(b) => {
                match self.octave.checked_sub_i8(1) {
                    Ok(oc) => {
                        placed.push(Tone { note: b, octave: oc });
                    },
                    Err(_) => {
                        return Err(DerivationError::Range(RangeError::OctaveUnderflow));
                    },
                }
            },
            None => {},
        }
        assert(placed@ =~= slash_prefix(self@));
        let mut i: usize = 0;
        while i < base.len()
            invariant
                0 <= i <= base@.len(),
                placed@ =~= slash_prefix(self@) + base@.subrange(0, i as int),
                forall|j: int| 0 <= j < base@.len() ==> note_wf(base@[j].note),
                forall|j: int| 0 <= j < placed@.len() ==> note_wf(placed@[j].note),
            decreases base@.len() - i,
        {
            placed.push(base[i]);
            i += 1;
        }
        assert(placed@ =~= slash_prefix(self@) + base@);

        // Inversion: move the lowest tones up an octave and to the end.
        let n = self.inversion as usize;
        if n >= placed.len() {
            return Err(DerivationError::InvalidInversion);
        }
        let rot = match rotate_tones(&placed, n) {
            Ok(v) => v,
            Err(e) => {
                return Err(e);
            },
        };
        if self.crunch {
            Ok(crunch_tones(&rot, self.octave))
        } else {
            Ok(rot)
        }
    }
}


/// The crunch law: a crunched chord derives the same notes, in the same
/// order, as the same chord without the crunch flag, with every tone's
/// register rewritten to the root's octave.
#[verifier::rlimit(100)]
#[verifier::spinoff_prover]
pub proof fn lemma_crunch_flattens(cv: ChordView)
    requires
        cv.crunch,
        derive_spec(cv) is Ok,
    ensures
        derive_spec(ChordView { crunch: false, ..cv }) is Ok,
        derive_spec(ChordView { crunch: false, ..cv })->Ok_0.len() == derive_spec(cv)->Ok_0.len(),
        forall|i: int|
            0 <= i < derive_spec(cv)->Ok_0.len() ==> (#[trigger] derive_spec(cv)->Ok_0[i]).octave
                == cv.octave && derive_spec(cv)->Ok_0[i].note == derive_spec(
                ChordView { crunch: false, ..cv },
            )->Ok_0[i].note,
{
    let un = ChordView { crunch: false, ..cv };
    assert(conflicting(un) == conflicting(cv));
    assert(base_tones(un) == base_tones(cv));
    assert(base_overflows(un) == base_overflows(cv));
    assert(slash_prefix(un) == slash_prefix(cv));
}

} // verus!
