//! The chord guesser: given an unordered set of note names, search candidate
//! roots and modifier/extension combinations for chords whose derived
//! pitch-class set matches the input exactly, simplest first.

use vstd::prelude::*;
use crate::note::{Note, Tone, note_wf, pitch_class};
use crate::octave::Octave;
use crate::modifier::{Degree, Modifier, Extension};
use crate::chord::{Chord, ChordView, derive_spec, chord_wf};

verus! {

/// The pitch-class set of a note list, as a twelve-bit mask: bit `p` is set
/// exactly when some note has pitch class `p`.
pub open spec fn pc_mask_notes(s: Seq<Note>) -> u16
    decreases s.len(),
{
    if s.len() == 0 {
        0u16
    } else {
        pc_mask_notes(s.drop_last()) | (1u16 << (pitch_class(s.last()) as u16))
    }
}

/// The pitch-class set of a tone list, octaves discarded.
pub open spec fn pc_mask_tones(s: Seq<Tone>) -> u16
    decreases s.len(),
{
    if s.len() == 0 {
        0u16
    } else {
        pc_mask_tones(s.drop_last()) | (1u16 << (pitch_class(s.last().note) as u16))
    }
}

/// Executable counterpart of [`pc_mask_notes`].
pub fn pc_mask_of_notes(v: &Vec<Note>) -> (m: u16)
    requires
        forall|i: int| 0 <= i < v@.len() ==> note_wf(v@[i]),
    ensures
        m == pc_mask_notes(v@),
{
    let mut m: u16 = 0;
    let mut i: usize = 0;
    while i < v.len()
        invariant
            0 <= i <= v@.len(),
            forall|j: int| 0 <= j < v@.len() ==> note_wf(v@[j]),
            m == pc_mask_notes(v@.subrange(0, i as int)),
        decreases v@.len() - i,
    {
        let pc = v[i].pitch_class_number();
        m = m | (1u16 << (pc as u16));
        proof {
            assert(v@.subrange(0, i + 1).drop_last() =~= v@.subrange(0, i as int));
            assert(v@.subrange(0, i + 1).last() == v@[i as int]);
        }
        i += 1;
    }
    proof {
        assert(v@.subrange(0, v@.len() as int) =~= v@);
    }
    m
}

/// Executable counterpart of [`pc_mask_tones`].
pub fn pc_mask_of_tones(v: &Vec<Tone>) -> (m: u16)
    requires
        forall|i: int| 0 <= i < v@.len() ==> note_wf(v@[i].note),
    ensures
        m == pc_mask_tones(v@),
{
    let mut m: u16 = 0;
    let mut i: usize = 0;
    while i < v.len()
        invariant
            0 <= i <= v@.len(),
            forall|j: int| 0 <= j < v@.len() ==> note_wf(v@[j].note),
            m == pc_mask_tones(v@.subrange(0, i as int)),
        decreases v@.len() - i,
    {
        let pc = v[i].note.pitch_class_number();
        m = m | (1u16 << (pc as u16));
        proof {
            assert(v@.subrange(0, i + 1).drop_last() =~= v@.subrange(0, i as int));
            assert(v@.subrange(0, i + 1).last() == v@[i as int]);
        }
        i += 1;
    }
    proof {
        assert(v@.subrange(0, v@.len() as int) =~= v@);
    }
    m
}


proof fn lemma_bit_or_shift(a: u16, c: u16, q: u16)
    requires
        c < 16,
        q < 16,
    ensures
        (((a | (1u16 << c)) >> q) & 1 == 1) <==> (((a >> q) & 1 == 1) || c == q),
{
    assert((((a | (1u16 << c)) >> q) & 1 == 1) <==> (((a >> q) & 1 == 1) || c == q))
        by (bit_vector)
        requires
            c < 16,
            q < 16,
    ;
}

/// What the mask means: bit `p` of the pitch-class mask is set exactly when
/// some note of the list has pitch class `p`.
pub proof fn lemma_pc_mask_notes_bits(s: Seq<Note>, p: int)
    requires
        0 <= p < 12,
    ensures
        ((pc_mask_notes(s) >> (p as u16)) & 1 == 1) <==> (exists|i: int|
            0 <= i < s.len() && pitch_class(s[i]) == p),
    decreases s.len(),
{
    let q = p as u16;
    if s.len() == 0 {
        assert((0u16 >> q) & 1 == 0) by (bit_vector);
    } else {
        let rest = s.drop_last();
        lemma_pc_mask_notes_bits(rest, p);
        lemma_bit_or_shift(pc_mask_notes(rest), pitch_class(s.last()) as u16, p as u16);
        if (pc_mask_notes(s) >> (p as u16)) & 1 == 1 {
            if (pc_mask_notes(rest) >> (p as u16)) & 1 == 1 {
                let i = choose|i: int| 0 <= i < rest.len() && pitch_class(rest[i]) == p;
                assert(s[i] == rest[i]);
                assert(pitch_class(s[i]) == p);
            } else {
                assert(pitch_class(s[s.len() - 1]) == p);
            }
        }
        if exists|i: int| 0 <= i < s.len() && pitch_class(s[i]) == p {
            let i = choose|i: int| 0 <= i < s.len() && pitch_class(s[i]) == p;
            if i < s.len() - 1 {
                assert(rest[i] == s[i]);
                assert(exists|j: int| 0 <= j < rest.len() && pitch_class(rest[j]) == p);
            } else {
                assert(pitch_class(s.last()) == p);
            }
        }
    }
}


/// The same, for tone lists: octaves play no part in the mask.
pub proof fn lemma_pc_mask_tones_bits(s: Seq<Tone>, p: int)
    requires
        0 <= p < 12,
    ensures
        ((pc_mask_tones(s) >> (p as u16)) & 1 == 1) <==> (exists|i: int|
            0 <= i < s.len() && pitch_class(s[i].note) == p),
    decreases s.len(),
{
    let q = p as u16;
    if s.len() == 0 {
        assert((0u16 >> q) & 1 == 0) by (bit_vector);
    } else {
        let rest = s.drop_last();
        lemma_pc_mask_tones_bits(rest, p);
        lemma_bit_or_shift(pc_mask_tones(rest), pitch_class(s.last().note) as u16, p as u16);
        if (pc_mask_tones(s) >> (p as u16)) & 1 == 1 {
            if (pc_mask_tones(rest) >> (p as u16)) & 1 == 1 {
                let i = choose|i: int| 0 <= i < rest.len() && pitch_class(rest[i].note) == p;
                assert(s[i] == rest[i]);
                assert(pitch_class(s[i].note) == p);
            } else {
                assert(pitch_class(s[s.len() - 1].note) == p);
            }
        }
        if exists|i: int| 0 <= i < s.len() && pitch_class(s[i].note) == p {
            let i = choose|i: int| 0 <= i < s.len() && pitch_class(s[i].note) == p;
            if i < s.len() - 1 {
                assert(rest[i] == s[i]);
                assert(exists|j: int| 0 <= j < rest.len() && pitch_class(rest[j].note) == p);
            } else {
                assert(pitch_class(s.last().note) == p);
            }
        }
    }
}

/// The modifier vocabulary the guesser searches, in its fixed preference
/// order.
pub open spec fn mods_vocab() -> Seq<Modifier> {
    seq![
        Modifier::Minor,
        Modifier::Flat5,
        Modifier::Augmented5,
        Modifier::Major7,
        Modifier::Dominant(Degree::Seven),
        Modifier::Dominant(Degree::Nine),
        Modifier::Dominant(Degree::Eleven),
        Modifier::Dominant(Degree::Thirteen),
        Modifier::Flat9,
        Modifier::Sharp9,
        Modifier::Sharp11,
        Modifier::Diminished,
    ]
}

/// The extension vocabulary the guesser searches, in its fixed preference
/// order.
pub open spec fn exts_vocab() -> Seq<Extension> {
    seq![
        Extension::Sus2,
        Extension::Sus4,
        Extension::Flat11,
        Extension::Flat13,
        Extension::Sharp13,
        Extension::Add2,
        Extension::Add4,
        Extension::Add6,
        Extension::Add9,
        Extension::Add11,
        Extension::Add13,
    ]
}

/// Every modifier value stands somewhere in the searched vocabulary, so no
/// single-modifier chord escapes the search for want of a table entry.
pub proof fn lemma_mods_vocab_complete(m: Modifier)
    ensures
        mods_vocab().contains(m),
{
    match m {
        Modifier::Minor => assert(mods_vocab()[0] == m),
        Modifier::Flat5 => assert(mods_vocab()[1] == m),
        Modifier::Augmented5 => assert(mods_vocab()[2] == m),
        Modifier::Major7 => assert(mods_vocab()[3] == m),
        Modifier::Dominant(d) => match d {
            Degree::Seven => assert(mods_vocab()[4] == m),
            Degree::Nine => assert(mods_vocab()[5] == m),
            Degree::Eleven => assert(mods_vocab()[6] == m),
            Degree::Thirteen => assert(mods_vocab()[7] == m),
        },
        Modifier::Flat9 => assert(mods_vocab()[8] == m),
        Modifier::Sharp9 => assert(mods_vocab()[9] == m),
        Modifier::Sharp11 => assert(mods_vocab()[10] == m),
        Modifier::Diminished => assert(mods_vocab()[11] == m),
    }
}

/// Every extension value stands somewhere in the searched vocabulary.
pub proof fn lemma_exts_vocab_complete(e: Extension)
    ensures
        exts_vocab().contains(e),
{
    match e {
        Extension::Sus2 => assert(exts_vocab()[0] == e),
        Extension::Sus4 => assert(exts_vocab()[1] == e),
        Extension::Flat11 => assert(exts_vocab()[2] == e),
        Extension::Flat13 => assert(exts_vocab()[3] == e),
        Extension::Sharp13 => assert(exts_vocab()[4] == e),
        Extension::Add2 => assert(exts_vocab()[5] == e),
        Extension::Add4 => assert(exts_vocab()[6] == e),
        Extension::Add6 => assert(exts_vocab()[7] == e),
        Extension::Add9 => assert(exts_vocab()[8] == e),
        Extension::Add11 => assert(exts_vocab()[9] == e),
        Extension::Add13 => assert(exts_vocab()[10] == e),
    }
}

pub fn mods_list() -> (v: Vec<Modifier>)
    ensures
        v@ == mods_vocab(),
{
    let mut v: Vec<Modifier> = Vec::new();
    v.push(Modifier::Minor);
    v.push(Modifier::Flat5);
    v.push(Modifier::Augmented5);
    v.push(Modifier::Major7);
    v.push(Modifier::Dominant(Degree::Seven));
    v.push(Modifier::Dominant(Degree::Nine));
    v.push(Modifier::Dominant(Degree::Eleven));
    v.push(Modifier::Dominant(Degree::Thirteen));
    v.push(Modifier::Flat9);
    v.push(Modifier::Sharp9);
    v.push(Modifier::Sharp11);
    v.push(Modifier::Diminished);
    assert(v@ =~= mods_vocab());
    v
}

pub fn exts_list() -> (v: Vec<Extension>)
    ensures
        v@ == exts_vocab(),
{
    let mut v: Vec<Extension> = Vec::new();
    v.push(Extension::Sus2);
    v.push(Extension::Sus4);
    v.push(Extension::Flat11);
    v.push(Extension::Flat13);
    v.push(Extension::Sharp13);
    v.push(Extension::Add2);
    v.push(Extension::Add4);
    v.push(Extension::Add6);
    v.push(Extension::Add9);
    v.push(Extension::Add11);
    v.push(Extension::Add13);
    assert(v@ =~= exts_vocab());
    v
}

/// The synthetic candidate the guesser tries: the root in the default
/// register, the given sets, nothing else.
pub open spec fn cand(root: Note, ms: Seq<Modifier>, es: Seq<Extension>) -> ChordView {
    ChordView {
        root,
        octave: Octave::Four,
        modifiers: ms,
        extensions: es,
        slash: None,
        inversion: 0u8,
        crunch: false,
    }
}

/// Whether a candidate chord derives successfully to exactly the wanted
/// pitch-class set.
#[verifier::opaque]
pub open spec fn accepted(cv: ChordView, mask: u16) -> bool {
    &&& derive_spec(cv) is Ok
    &&& pc_mask_tones(derive_spec(cv)->Ok_0) == mask
}

/// The simplicity rank of a candidate: fewer modifiers and extensions rank
/// lower, modifiers before extensions among equals.
pub open spec fn combo_rank(cv: ChordView) -> int {
    let nm = cv.modifiers.len();
    let ne = cv.extensions.len();
    if nm == 0 && ne == 0 {
        0
    } else if nm == 1 && ne == 0 {
        1
    } else if nm == 0 && ne == 1 {
        2
    } else if nm == 2 && ne == 0 {
        3
    } else if nm == 1 && ne == 1 {
        4
    } else if nm == 2 && ne == 1 {
        5
    } else {
        6
    }
}

/// What holds of every chord the guesser returns, besides acceptance: a root
/// from the input, the default register, no slash, no inversion, no crunch,
/// and a combination within the search caps.
pub open spec fn guess_shape(ns: Seq<Note>, cv: ChordView) -> bool {
    &&& ns.contains(cv.root)
    &&& cv.octave == Octave::Four
    &&& cv.slash is None
    &&& cv.inversion == 0
    &&& !cv.crunch
    &&& chord_wf(cv)
    &&& combo_rank(cv) <= 4
}

/// Whether the result list contains a chord with the given value.
pub open spec fn result_has(rs: Seq<Chord>, cv: ChordView) -> bool {
    exists|i: int| 0 <= i < rs.len() && rs[i]@ == cv
}

/// Tries one candidate: appends it exactly when it derives to the wanted
/// pitch-class set.
fn consider(out: &mut Vec<Chord>, root: Note, ms: Vec<Modifier>, es: Vec<Extension>, mask: u16)
    requires
        note_wf(root),
    ensures
        accepted(cand(root, ms@, es@), mask) ==> {
            &&& final(out)@.len() == old(out)@.len() + 1
            &&& final(out)@[final(out)@.len() - 1]@ == cand(root, ms@, es@)
        },
        !accepted(cand(root, ms@, es@), mask) ==> final(out)@ == old(out)@,
        forall|i: int| 0 <= i < old(out)@.len() ==> final(out)@[i] == old(out)@[i],
{
    proof {
        reveal(accepted);
    }
    let c = Chord {
        root,
        octave: Octave::Four,
        modifiers: ms,
        extensions: es,
        slash: None,
        inversion: 0,
        crunch: false,
    };
    assert(c@ == cand(root, c.modifiers@, c.extensions@));
    match c.derive() {
        Ok(tones) => {
            let m = pc_mask_of_tones(&tones);
            if m == mask {
                out.push(c);
            }
        },
        Err(_) => {},
    }
}

/// The single-modifier candidate at vocabulary position `a`.
pub open spec fn single_mod_cand(root: Note, a: int) -> ChordView {
    cand(root, seq![mods_vocab()[a]], seq![])
}

/// The single-extension candidate at vocabulary position `x`.
pub open spec fn single_ext_cand(root: Note, x: int) -> ChordView {
    cand(root, seq![], seq![exts_vocab()[x]])
}

/// The modifier-pair candidate at vocabulary positions `a < b`.
pub open spec fn pair_cand(root: Note, a: int, b: int) -> ChordView {
    cand(root, seq![mods_vocab()[a], mods_vocab()[b]], seq![])
}

/// The modifier-plus-extension candidate at vocabulary positions `a` and `x`.
pub open spec fn mod_ext_cand(root: Note, a: int, x: int) -> ChordView {
    cand(root, seq![mods_vocab()[a]], seq![exts_vocab()[x]])
}

/// A chord value the single-modifier pass may produce.
pub open spec fn sound_single(root: Note, cv: ChordView) -> bool {
    exists|a: int| 0 <= a < 12 && cv == #[trigger] single_mod_cand(root, a)
}

/// A chord value the single-extension pass may produce.
pub open spec fn sound_ext(root: Note, cv: ChordView) -> bool {
    exists|x: int| 0 <= x < 11 && cv == #[trigger] single_ext_cand(root, x)
}

/// A chord value the modifier-pair pass may produce.
pub open spec fn sound_pair(root: Note, cv: ChordView) -> bool {
    exists|a: int, b: int| 0 <= a < b < 12 && cv == #[trigger] pair_cand(root, a, b)
}

/// A chord value the modifier-plus-extension pass may produce.
pub open spec fn sound_mod_ext(root: Note, cv: ChordView) -> bool {
    exists|a: int, x: int| 0 <= a < 12 && 0 <= x < 11 && cv == #[trigger] mod_ext_cand(root, a, x)
}

/// Tries every single-modifier candidate on one root.
fn consider_singles(out: &mut Vec<Chord>, root: Note, vm: &Vec<Modifier>, mask: u16)
    requires
        note_wf(root),
        vm@ == mods_vocab(),
    ensures
        forall|i: int| 0 <= i < old(out)@.len() ==> final(out)@[i] == old(out)@[i],
        old(out)@.len() <= final(out)@.len(),
        forall|i: int|
            old(out)@.len() <= i < final(out)@.len() ==> sound_single(
                root,
                #[trigger] final(out)@[i]@,
            ) && accepted(final(out)@[i]@, mask),
        forall|a: int|
            0 <= a < 12 && accepted(#[trigger] single_mod_cand(root, a), mask) ==> result_has(
                final(out)@,
                single_mod_cand(root, a),
            ),
{
    let ghost out0 = out@;
    let mut a: usize = 0;
    while a < 12
        invariant
            0 <= a <= 12,
            note_wf(root),
            vm@ == mods_vocab(),
            forall|i: int| 0 <= i < out0.len() ==> out@[i] == out0[i],
            out0.len() <= out@.len(),
            forall|i: int|
                out0.len() <= i < out@.len() ==> sound_single(root, #[trigger] out@[i]@)
                    && accepted(out@[i]@, mask),
            forall|x: int|
                0 <= x < a && accepted(#[trigger] single_mod_cand(root, x), mask) ==> result_has(
                    out@,
                    single_mod_cand(root, x),
                ),
        decreases 12 - a,
    {
        let mut ms: Vec<Modifier> = Vec::new();
        ms.push(vm[a]);
        let es: Vec<Extension> = Vec::new();
        assert(ms@ =~= seq![mods_vocab()[a as int]]);
        assert(es@ =~= Seq::<Extension>::empty());
        assert(cand(root, ms@, es@) == single_mod_cand(root, a as int));
        let ghost gms = ms@;
        let ghost ges = es@;
        consider(out, root, ms, es, mask);
        proof {
            if accepted(single_mod_cand(root, a as int), mask) {
                assert(out@[out@.len() - 1]@ == cand(root, gms, ges));
                assert(result_has(out@, single_mod_cand(root, a as int)));
            }
        }
        a += 1;
    }
}

/// Tries every single-extension candidate on one root.
fn consider_exts(out: &mut Vec<Chord>, root: Note, ve: &Vec<Extension>, mask: u16)
    requires
        note_wf(root),
        ve@ == exts_vocab(),
    ensures
        forall|i: int| 0 <= i < old(out)@.len() ==> final(out)@[i] == old(out)@[i],
        old(out)@.len() <= final(out)@.len(),
        forall|i: int|
            old(out)@.len() <= i < final(out)@.len() ==> sound_ext(
                root,
                #[trigger] final(out)@[i]@,
            ) && accepted(final(out)@[i]@, mask),
        forall|x: int|
            0 <= x < 11 && accepted(#[trigger] single_ext_cand(root, x), mask) ==> result_has(
                final(out)@,
                single_ext_cand(root, x),
            ),
{
    let ghost out0 = out@;
    let mut x: usize = 0;
    while x < 11
        invariant
            0 <= x <= 11,
            note_wf(root),
            ve@ == exts_vocab(),
            forall|i: int| 0 <= i < out0.len() ==> out@[i] == out0[i],
            out0.len() <= out@.len(),
            forall|i: int|
                out0.len() <= i < out@.len() ==> sound_ext(root, #[trigger] out@[i]@) && accepted(
                    out@[i]@,
                    mask,
                ),
            forall|y: int|
                0 <= y < x && accepted(#[trigger] single_ext_cand(root, y), mask) ==> result_has(
                    out@,
                    single_ext_cand(root, y),
                ),
        decreases 11 - x,
    {
        let mut es: Vec<Extension> = Vec::new();
        es.push(ve[x]);
        let ms: Vec<Modifier> = Vec::new();
        assert(es@ =~= seq![exts_vocab()[x as int]]);
        assert(ms@ =~= Seq::<Modifier>::empty());
        assert(cand(root, ms@, es@) == single_ext_cand(root, x as int));
        let ghost gms = ms@;
        let ghost ges = es@;
        consider(out, root, ms, es, mask);
        proof {
            if accepted(single_ext_cand(root, x as int), mask) {
                assert(out@[out@.len() - 1]@ == cand(root, gms, ges));
                assert(result_has(out@, single_ext_cand(root, x as int)));
            }
        }
        x += 1;
    }
}

/// Tries every modifier-pair candidate on one root.
#[verifier::rlimit(50)]
fn consider_pairs(out: &mut Vec<Chord>, root: Note, vm: &Vec<Modifier>, mask: u16)
    requires
        note_wf(root),
        vm@ == mods_vocab(),
    ensures
        forall|i: int| 0 <= i < old(out)@.len() ==> final(out)@[i] == old(out)@[i],
        old(out)@.len() <= final(out)@.len(),
        forall|i: int|
            old(out)@.len() <= i < final(out)@.len() ==> sound_pair(
                root,
                #[trigger] final(out)@[i]@,
            ) && accepted(final(out)@[i]@, mask),
        forall|a: int, b: int|
            0 <= a < b < 12 && accepted(#[trigger] pair_cand(root, a, b), mask) ==> result_has(
                final(out)@,
                pair_cand(root, a, b),
            ),
{
    let ghost out0 = out@;
    let mut a: usize = 0;
    while a < 12
        invariant
            0 <= a <= 12,
            note_wf(root),
            vm@ == mods_vocab(),
            forall|i: int| 0 <= i < out0.len() ==> out@[i] == out0[i],
            out0.len() <= out@.len(),
            forall|i: int|
                out0.len() <= i < out@.len() ==> sound_pair(root, #[trigger] out@[i]@) && accepted(
                    out@[i]@,
                    mask,
                ),
            forall|x: int, y: int|
                0 <= x < a && x < y < 12 && accepted(#[trigger] pair_cand(root, x, y), mask)
                    ==> result_has(out@, pair_cand(root, x, y)),
        decreases 12 - a,
    {
        let mut b: usize = a + 1;
        while b < 12
            invariant
                0 <= a < 12,
                a < b <= 12,
                note_wf(root),
                vm@ == mods_vocab(),
                forall|i: int| 0 <= i < out0.len() ==> out@[i] == out0[i],
                out0.len() <= out@.len(),
                forall|i: int|
                    out0.len() <= i < out@.len() ==> sound_pair(root, #[trigger] out@[i]@)
                        && accepted(out@[i]@, mask),
                forall|x: int, y: int|
                    0 <= x < a && x < y < 12 && accepted(#[trigger] pair_cand(root, x, y), mask)
                        ==> result_has(out@, pair_cand(root, x, y)),
                forall|y: int|
                    (a as int) < y < b && accepted(#[trigger] pair_cand(root, a as int, y), mask)
                        ==> result_has(out@, pair_cand(root, a as int, y)),
            decreases 12 - b,
        {
            let mut ms: Vec<Modifier> = Vec::new();
            ms.push(vm[a]);
            ms.push(vm[b]);
            let es: Vec<Extension> = Vec::new();
            assert(ms@ =~= seq![mods_vocab()[a as int], mods_vocab()[b as int]]);
            assert(es@ =~= Seq::<Extension>::empty());
            assert(cand(root, ms@, es@) == pair_cand(root, a as int, b as int));
            let ghost gms = ms@;
            let ghost ges = es@;
            consider(out, root, ms, es, mask);
            proof {
                if accepted(pair_cand(root, a as int, b as int), mask) {
                    assert(out@[out@.len() - 1]@ == cand(root, gms, ges));
                    assert(result_has(out@, pair_cand(root, a as int, b as int)));
                }
            }
            b += 1;
        }
        a += 1;
    }
}

/// Tries one root's single-modifier-plus-extension candidates.
#[verifier::rlimit(50)]
fn consider_mod_exts(
    out: &mut Vec<Chord>,
    root: Note,
    vm: &Vec<Modifier>,
    ve: &Vec<Extension>,
    mask: u16,
)
    requires
        note_wf(root),
        vm@ == mods_vocab(),
        ve@ == exts_vocab(),
    ensures
        forall|i: int| 0 <= i < old(out)@.len() ==> final(out)@[i] == old(out)@[i],
        old(out)@.len() <= final(out)@.len(),
        forall|i: int|
            old(out)@.len() <= i < final(out)@.len() ==> sound_mod_ext(
                root,
                #[trigger] final(out)@[i]@,
            ) && accepted(final(out)@[i]@, mask),
        forall|a: int, x: int|
            0 <= a < 12 && 0 <= x < 11 && accepted(#[trigger] mod_ext_cand(root, a, x), mask)
                ==> result_has(final(out)@, mod_ext_cand(root, a, x)),
{
    let ghost out0 = out@;
    let mut a: usize = 0;
    while a < 12
        invariant
            0 <= a <= 12,
            note_wf(root),
            vm@ == mods_vocab(),
            ve@ == exts_vocab(),
            forall|i: int| 0 <= i < out0.len() ==> out@[i] == out0[i],
            out0.len() <= out@.len(),
            forall|i: int|
                out0.len() <= i < out@.len() ==> sound_mod_ext(root, #[trigger] out@[i]@)
                    && accepted(out@[i]@, mask),
            forall|p: int, y: int|
                0 <= p < a && 0 <= y < 11 && accepted(#[trigger] mod_ext_cand(root, p, y), mask)
                    ==> result_has(out@, mod_ext_cand(root, p, y)),
        decreases 12 - a,
    {
        let mut x: usize = 0;
        while x < 11
            invariant
                0 <= a < 12,
                0 <= x <= 11,
                note_wf(root),
                vm@ == mods_vocab(),
                ve@ == exts_vocab(),
                forall|i: int| 0 <= i < out0.len() ==> out@[i] == out0[i],
                out0.len() <= out@.len(),
                forall|i: int|
                    out0.len() <= i < out@.len() ==> sound_mod_ext(root, #[trigger] out@[i]@)
                        && accepted(out@[i]@, mask),
                forall|p: int, y: int|
                    0 <= p < a && 0 <= y < 11 && accepted(#[trigger] mod_ext_cand(root, p, y), mask)
                        ==> result_has(out@, mod_ext_cand(root, p, y)),
                forall|y: int|
                    0 <= y < x && accepted(#[trigger] mod_ext_cand(root, a as int, y), mask)
                        ==> result_has(out@, mod_ext_cand(root, a as int, y)),
            decreases 11 - x,
        {
            let mut ms: Vec<Modifier> = Vec::new();
            ms.push(vm[a]);
            let mut es: Vec<Extension> = Vec::new();
            es.push(ve[x]);
            assert(ms@ =~= seq![mods_vocab()[a as int]]);
            assert(es@ =~= seq![exts_vocab()[x as int]]);
            assert(cand(root, ms@, es@) == mod_ext_cand(root, a as int, x as int));
            let ghost gms = ms@;
            let ghost ges = es@;
            consider(out, root, ms, es, mask);
            proof {
                if accepted(mod_ext_cand(root, a as int, x as int), mask) {
                    assert(out@[out@.len() - 1]@ == cand(root, gms, ges));
                    assert(result_has(out@, mod_ext_cand(root, a as int, x as int)));
                }
            }
            x += 1;
        }
        a += 1;
    }
}


/// A chord found in a list is still found after the list grows at the end.
proof fn lemma_result_has_extend(rs1: Seq<Chord>, rs2: Seq<Chord>, cv: ChordView)
    requires
        rs1.len() <= rs2.len(),
        forall|i: int| 0 <= i < rs1.len() ==> rs2[i] == rs1[i],
        result_has(rs1, cv),
    ensures
        result_has(rs2, cv),
{
    let i = choose|i: int| 0 <= i < rs1.len() && rs1[i]@ == cv;
    assert(rs2[i]@ == cv);
}

/// One pass of the plain-triad candidates, one per input note.
fn pass_triads(out: &mut Vec<Chord>, notes: &Vec<Note>, mask: u16)
    requires
        forall|i: int| 0 <= i < notes@.len() ==> note_wf(#[trigger] notes@[i]),
    ensures
        forall|i: int| 0 <= i < old(out)@.len() ==> final(out)@[i] == old(out)@[i],
        old(out)@.len() <= final(out)@.len(),
        forall|i: int|
            old(out)@.len() <= i < final(out)@.len() ==> accepted(#[trigger] final(out)@[i]@, mask)
                && guess_shape(notes@, final(out)@[i]@) && combo_rank(final(out)@[i]@) == 0,
        forall|k: int|
            0 <= k < notes@.len() && accepted(#[trigger] cand(notes@[k], seq![], seq![]), mask)
                ==> result_has(final(out)@, cand(notes@[k], seq![], seq![])),
{
    let ghost out0 = out@;
    let mut k: usize = 0;
    while k < notes.len()
        invariant
            0 <= k <= notes@.len(),
            forall|i: int| 0 <= i < notes@.len() ==> note_wf(#[trigger] notes@[i]),
            forall|i: int| 0 <= i < out0.len() ==> out@[i] == out0[i],
            out0.len() <= out@.len(),
            forall|i: int|
                out0.len() <= i < out@.len() ==> accepted(#[trigger] out@[i]@, mask) && guess_shape(
                    notes@,
                    out@[i]@,
                ) && combo_rank(out@[i]@) == 0,
            forall|k2: int|
                0 <= k2 < k && accepted(#[trigger] cand(notes@[k2], seq![], seq![]), mask)
                    ==> result_has(out@, cand(notes@[k2], seq![], seq![])),
        decreases notes@.len() - k,
    {
        let root = notes[k];
        let ms: Vec<Modifier> = Vec::new();
        let es: Vec<Extension> = Vec::new();
        assert(ms@ =~= Seq::<Modifier>::empty());
        assert(es@ =~= Seq::<Extension>::empty());
        let ghost gprev = out@;
        let ghost gms = ms@;
        let ghost ges = es@;
        consider(out, root, ms, es, mask);
        proof {
            assert(notes@[k as int] == root);
            assert(notes@.contains(root));
            if accepted(cand(notes@[k as int], seq![], seq![]), mask) {
                assert(out@[out@.len() - 1]@ == cand(root, gms, ges));
                assert(result_has(out@, cand(notes@[k as int], seq![], seq![])));
            }
            assert forall|k2: int|
                0 <= k2 < k && accepted(#[trigger] cand(notes@[k2], seq![], seq![]), mask) implies
                result_has(out@, cand(notes@[k2], seq![], seq![])) by {
                lemma_result_has_extend(gprev, out@, cand(notes@[k2], seq![], seq![]));
            }
        }
        k += 1;
    }
}

/// One pass of a per-root helper over every input note; the macro-free body
/// is repeated for each candidate class below.
fn pass_singles(out: &mut Vec<Chord>, notes: &Vec<Note>, vm: &Vec<Modifier>, mask: u16)
    requires
        forall|i: int| 0 <= i < notes@.len() ==> note_wf(#[trigger] notes@[i]),
        vm@ == mods_vocab(),
    ensures
        forall|i: int| 0 <= i < old(out)@.len() ==> final(out)@[i] == old(out)@[i],
        old(out)@.len() <= final(out)@.len(),
        forall|i: int|
            old(out)@.len() <= i < final(out)@.len() ==> accepted(#[trigger] final(out)@[i]@, mask)
                && guess_shape(notes@, final(out)@[i]@) && combo_rank(final(out)@[i]@) == 1,
        forall|k: int, a: int|
            0 <= k < notes@.len() && 0 <= a < 12 && accepted(
                #[trigger] single_mod_cand(notes@[k], a),
                mask,
            ) ==> result_has(final(out)@, single_mod_cand(notes@[k], a)),
{
    let ghost out0 = out@;
    let mut k: usize = 0;
    while k < notes.len()
        invariant
            0 <= k <= notes@.len(),
            forall|i: int| 0 <= i < notes@.len() ==> note_wf(#[trigger] notes@[i]),
            vm@ == mods_vocab(),
            forall|i: int| 0 <= i < out0.len() ==> out@[i] == out0[i],
            out0.len() <= out@.len(),
            forall|i: int|
                out0.len() <= i < out@.len() ==> accepted(#[trigger] out@[i]@, mask) && guess_shape(
                    notes@,
                    out@[i]@,
                ) && combo_rank(out@[i]@) == 1,
            forall|k2: int, a: int|
                0 <= k2 < k && 0 <= a < 12 && accepted(
                    #[trigger] single_mod_cand(notes@[k2], a),
                    mask,
                ) ==> result_has(out@, single_mod_cand(notes@[k2], a)),
        decreases notes@.len() - k,
    {
        let root = notes[k];
        let ghost gprev = out@;
        consider_singles(out, root, vm, mask);
        proof {
            assert(notes@[k as int] == root);
            assert(notes@.contains(root));
            assert forall|i: int| gprev.len() <= i < out@.len() implies accepted(
                #[trigger] out@[i]@,
                mask,
            ) && guess_shape(notes@, out@[i]@) && combo_rank(out@[i]@) == 1 by {
                let a = choose|a: int| 0 <= a < 12 && out@[i]@ == single_mod_cand(root, a);
                assert(out@[i]@ == cand(root, seq![mods_vocab()[a]], seq![]));
            }
            assert forall|k2: int, a: int|
                0 <= k2 < k + 1 && 0 <= a < 12 && accepted(
                    #[trigger] single_mod_cand(notes@[k2], a),
                    mask,
                ) implies result_has(out@, single_mod_cand(notes@[k2], a)) by {
                if k2 < k {
                    lemma_result_has_extend(gprev, out@, single_mod_cand(notes@[k2], a));
                }
            }
        }
        k += 1;
    }
}

/// The single-extension pass.
fn pass_exts(out: &mut Vec<Chord>, notes: &Vec<Note>, ve: &Vec<Extension>, mask: u16)
    requires
        forall|i: int| 0 <= i < notes@.len() ==> note_wf(#[trigger] notes@[i]),
        ve@ == exts_vocab(),
    ensures
        forall|i: int| 0 <= i < old(out)@.len() ==> final(out)@[i] == old(out)@[i],
        old(out)@.len() <= final(out)@.len(),
        forall|i: int|
            old(out)@.len() <= i < final(out)@.len() ==> accepted(#[trigger] final(out)@[i]@, mask)
                && guess_shape(notes@, final(out)@[i]@) && combo_rank(final(out)@[i]@) == 2,
        forall|k: int, x: int|
            0 <= k < notes@.len() && 0 <= x < 11 && accepted(
                #[trigger] single_ext_cand(notes@[k], x),
                mask,
            ) ==> result_has(final(out)@, single_ext_cand(notes@[k], x)),
{
    let ghost out0 = out@;
    let mut k: usize = 0;
    while k < notes.len()
        invariant
            0 <= k <= notes@.len(),
            forall|i: int| 0 <= i < notes@.len() ==> note_wf(#[trigger] notes@[i]),
            ve@ == exts_vocab(),
            forall|i: int| 0 <= i < out0.len() ==> out@[i] == out0[i],
            out0.len() <= out@.len(),
            forall|i: int|
                out0.len() <= i < out@.len() ==> accepted(#[trigger] out@[i]@, mask) && guess_shape(
                    notes@,
                    out@[i]@,
                ) && combo_rank(out@[i]@) == 2,
            forall|k2: int, x: int|
                0 <= k2 < k && 0 <= x < 11 && accepted(
                    #[trigger] single_ext_cand(notes@[k2], x),
                    mask,
                ) ==> result_has(out@, single_ext_cand(notes@[k2], x)),
        decreases notes@.len() - k,
    {
        let root = notes[k];
        let ghost gprev = out@;
        consider_exts(out, root, ve, mask);
        proof {
            assert(notes@[k as int] == root);
            assert(notes@.contains(root));
            assert forall|i: int| gprev.len() <= i < out@.len() implies accepted(
                #[trigger] out@[i]@,
                mask,
            ) && guess_shape(notes@, out@[i]@) && combo_rank(out@[i]@) == 2 by {
                let x = choose|x: int| 0 <= x < 11 && out@[i]@ == single_ext_cand(root, x);
                assert(out@[i]@ == cand(root, seq![], seq![exts_vocab()[x]]));
            }
            assert forall|k2: int, x: int|
                0 <= k2 < k + 1 && 0 <= x < 11 && accepted(
                    #[trigger] single_ext_cand(notes@[k2], x),
                    mask,
                ) implies result_has(out@, single_ext_cand(notes@[k2], x)) by {
                if k2 < k {
                    lemma_result_has_extend(gprev, out@, single_ext_cand(notes@[k2], x));
                }
            }
        }
        k += 1;
    }
}

/// The modifier-pair pass.
fn pass_pairs(out: &mut Vec<Chord>, notes: &Vec<Note>, vm: &Vec<Modifier>, mask: u16)
    requires
        forall|i: int| 0 <= i < notes@.len() ==> note_wf(#[trigger] notes@[i]),
        vm@ == mods_vocab(),
    ensures
        forall|i: int| 0 <= i < old(out)@.len() ==> final(out)@[i] == old(out)@[i],
        old(out)@.len() <= final(out)@.len(),
        forall|i: int|
            old(out)@.len() <= i < final(out)@.len() ==> accepted(#[trigger] final(out)@[i]@, mask)
                && guess_shape(notes@, final(out)@[i]@) && combo_rank(final(out)@[i]@) == 3,
        forall|k: int, a: int, b: int|
            0 <= k < notes@.len() && 0 <= a < b < 12 && accepted(
                #[trigger] pair_cand(notes@[k], a, b),
                mask,
            ) ==> result_has(final(out)@, pair_cand(notes@[k], a, b)),
{
    let ghost out0 = out@;
    let mut k: usize = 0;
    while k < notes.len()
        invariant
            0 <= k <= notes@.len(),
            forall|i: int| 0 <= i < notes@.len() ==> note_wf(#[trigger] notes@[i]),
            vm@ == mods_vocab(),
            forall|i: int| 0 <= i < out0.len() ==> out@[i] == out0[i],
            out0.len() <= out@.len(),
            forall|i: int|
                out0.len() <= i < out@.len() ==> accepted(#[trigger] out@[i]@, mask) && guess_shape(
                    notes@,
                    out@[i]@,
                ) && combo_rank(out@[i]@) == 3,
            forall|k2: int, a: int, b: int|
                0 <= k2 < k && 0 <= a < b < 12 && accepted(
                    #[trigger] pair_cand(notes@[k2], a, b),
                    mask,
                ) ==> result_has(out@, pair_cand(notes@[k2], a, b)),
        decreases notes@.len() - k,
    {
        let root = notes[k];
        let ghost gprev = out@;
        consider_pairs(out, root, vm, mask);
        proof {
            assert(notes@[k as int] == root);
            assert(notes@.contains(root));
            assert forall|i: int| gprev.len() <= i < out@.len() implies accepted(
                #[trigger] out@[i]@,
                mask,
            ) && guess_shape(notes@, out@[i]@) && combo_rank(out@[i]@) == 3 by {
                let (a, b) = choose|a: int, b: int| 0 <= a < b < 12 && out@[i]@ == pair_cand(
                    root,
                    a,
                    b,
                );
                assert(out@[i]@ == cand(root, seq![mods_vocab()[a], mods_vocab()[b]], seq![]));
            }
            assert forall|k2: int, a: int, b: int|
                0 <= k2 < k + 1 && 0 <= a < b < 12 && accepted(
                    #[trigger] pair_cand(notes@[k2], a, b),
                    mask,
                ) implies result_has(out@, pair_cand(notes@[k2], a, b)) by {
                if k2 < k {
                    lemma_result_has_extend(gprev, out@, pair_cand(notes@[k2], a, b));
                }
            }
        }
        k += 1;
    }
}

/// The modifier-plus-extension pass.
fn pass_mod_exts(
    out: &mut Vec<Chord>,
    notes: &Vec<Note>,
    vm: &Vec<Modifier>,
    ve: &Vec<Extension>,
    mask: u16,
)
    requires
        forall|i: int| 0 <= i < notes@.len() ==> note_wf(#[trigger] notes@[i]),
        vm@ == mods_vocab(),
        ve@ == exts_vocab(),
    ensures
        forall|i: int| 0 <= i < old(out)@.len() ==> final(out)@[i] == old(out)@[i],
        old(out)@.len() <= final(out)@.len(),
        forall|i: int|
            old(out)@.len() <= i < final(out)@.len() ==> accepted(#[trigger] final(out)@[i]@, mask)
                && guess_shape(notes@, final(out)@[i]@) && combo_rank(final(out)@[i]@) == 4,
        forall|k: int, a: int, x: int|
            0 <= k < notes@.len() && 0 <= a < 12 && 0 <= x < 11 && accepted(
                #[trigger] mod_ext_cand(notes@[k], a, x),
                mask,
            ) ==> result_has(final(out)@, mod_ext_cand(notes@[k], a, x)),
{
    let ghost out0 = out@;
    let mut k: usize = 0;
    while k < notes.len()
        invariant
            0 <= k <= notes@.len(),
            forall|i: int| 0 <= i < notes@.len() ==> note_wf(#[trigger] notes@[i]),
            vm@ == mods_vocab(),
            ve@ == exts_vocab(),
            forall|i: int| 0 <= i < out0.len() ==> out@[i] == out0[i],
            out0.len() <= out@.len(),
            forall|i: int|
                out0.len() <= i < out@.len() ==> accepted(#[trigger] out@[i]@, mask) && guess_shape(
                    notes@,
                    out@[i]@,
                ) && combo_rank(out@[i]@) == 4,
            forall|k2: int, a: int, x: int|
                0 <= k2 < k && 0 <= a < 12 && 0 <= x < 11 && accepted(
                    #[trigger] mod_ext_cand(notes@[k2], a, x),
                    mask,
                ) ==> result_has(out@, mod_ext_cand(notes@[k2], a, x)),
        decreases notes@.len() - k,
    {
        let root = notes[k];
        let ghost gprev = out@;
        consider_mod_exts(out, root, vm, ve, mask);
        proof {
            assert(notes@[k as int] == root);
            assert(notes@.contains(root));
            assert forall|i: int| gprev.len() <= i < out@.len() implies accepted(
                #[trigger] out@[i]@,
                mask,
            ) && guess_shape(notes@, out@[i]@) && combo_rank(out@[i]@) == 4 by {
                let (a, x) = choose|a: int, x: int|
                    0 <= a < 12 && 0 <= x < 11 && out@[i]@ == mod_ext_cand(root, a, x);
                assert(out@[i]@ == cand(root, seq![mods_vocab()[a]], seq![exts_vocab()[x]]));
            }
            assert forall|k2: int, a: int, x: int|
                0 <= k2 < k + 1 && 0 <= a < 12 && 0 <= x < 11 && accepted(
                    #[trigger] mod_ext_cand(notes@[k2], a, x),
                    mask,
                ) implies result_has(out@, mod_ext_cand(notes@[k2], a, x)) by {
                if k2 < k {
                    lemma_result_has_extend(gprev, out@, mod_ext_cand(notes@[k2], a, x));
                }
            }
        }
        k += 1;
    }
}

/// Guesses the chords an unordered set of note names spells.
///
/// Every returned chord is a candidate from the bounded search space (a root
/// from the input, at most two modifiers or one modifier plus one extension)
/// whose derived pitch-class set equals the input's exactly; the list is
/// ordered by ascending simplicity rank, and every matching candidate of the
/// search space is present.  An input no candidate matches yields the empty
/// list.
pub fn guess(notes: &Vec<Note>) -> (r: Vec<Chord>)
    requires
        forall|i: int| 0 <= i < notes@.len() ==> note_wf(#[trigger] notes@[i]),
    ensures
        forall|i: int|
            0 <= i < r@.len() ==> accepted(#[trigger] r@[i]@, pc_mask_notes(notes@)) && guess_shape(
                notes@,
                r@[i]@,
            ),
        forall|i: int, j: int|
            0 <= i < j < r@.len() ==> combo_rank(#[trigger] r@[i]@) <= combo_rank(
                #[trigger] r@[j]@,
            ),
        forall|k: int|
            0 <= k < notes@.len() && accepted(
                #[trigger] cand(notes@[k], seq![], seq![]),
                pc_mask_notes(notes@),
            ) ==> result_has(r@, cand(notes@[k], seq![], seq![])),
        forall|k: int, a: int|
            0 <= k < notes@.len() && 0 <= a < 12 && accepted(
                #[trigger] single_mod_cand(notes@[k], a),
                pc_mask_notes(notes@),
            ) ==> result_has(r@, single_mod_cand(notes@[k], a)),
        forall|k: int, x: int|
            0 <= k < notes@.len() && 0 <= x < 11 && accepted(
                #[trigger] single_ext_cand(notes@[k], x),
                pc_mask_notes(notes@),
            ) ==> result_has(r@, single_ext_cand(notes@[k], x)),
        forall|k: int, a: int, b: int|
            0 <= k < notes@.len() && 0 <= a < b < 12 && accepted(
                #[trigger] pair_cand(notes@[k], a, b),
                pc_mask_notes(notes@),
            ) ==> result_has(r@, pair_cand(notes@[k], a, b)),
        forall|k: int, a: int, x: int|
            0 <= k < notes@.len() && 0 <= a < 12 && 0 <= x < 11 && accepted(
                #[trigger] mod_ext_cand(notes@[k], a, x),
                pc_mask_notes(notes@),
            ) ==> result_has(r@, mod_ext_cand(notes@[k], a, x)),
{
    let mask = pc_mask_of_notes(notes);
    let vm = mods_list();
    let ve = exts_list();
    let mut out: Vec<Chord> = Vec::new();

    let ghost g0 = out@;
    pass_triads(&mut out, notes, mask);
    let ghost g1 = out@;
    pass_singles(&mut out, notes, &vm, mask);
    let ghost g2 = out@;
    pass_exts(&mut out, notes, &ve, mask);
    let ghost g3 = out@;
    pass_pairs(&mut out, notes, &vm, mask);
    let ghost g4 = out@;
    pass_mod_exts(&mut out, notes, &vm, &ve, mask);

    proof {
        assert forall|k: int|
            0 <= k < notes@.len() && accepted(#[trigger] cand(notes@[k], seq![], seq![]), mask)
                implies result_has(out@, cand(notes@[k], seq![], seq![])) by {
            lemma_result_has_extend(g1, g2, cand(notes@[k], seq![], seq![]));
            lemma_result_has_extend(g2, g3, cand(notes@[k], seq![], seq![]));
            lemma_result_has_extend(g3, g4, cand(notes@[k], seq![], seq![]));
            lemma_result_has_extend(g4, out@, cand(notes@[k], seq![], seq![]));
        }
        assert forall|k: int, a: int|
            0 <= k < notes@.len() && 0 <= a < 12 && accepted(
                #[trigger] single_mod_cand(notes@[k], a),
                mask,
            ) implies result_has(out@, single_mod_cand(notes@[k], a)) by {
            lemma_result_has_extend(g2, g3, single_mod_cand(notes@[k], a));
            lemma_result_has_extend(g3, g4, single_mod_cand(notes@[k], a));
            lemma_result_has_extend(g4, out@, single_mod_cand(notes@[k], a));
        }
        assert forall|k: int, x: int|
            0 <= k < notes@.len() && 0 <= x < 11 && accepted(
                #[trigger] single_ext_cand(notes@[k], x),
                mask,
            ) implies result_has(out@, single_ext_cand(notes@[k], x)) by {
            lemma_result_has_extend(g3, g4, single_ext_cand(notes@[k], x));
            lemma_result_has_extend(g4, out@, single_ext_cand(notes@[k], x));
        }
        assert forall|k: int, a: int, b: int|
            0 <= k < notes@.len() && 0 <= a < b < 12 && accepted(
                #[trigger] pair_cand(notes@[k], a, b),
                mask,
            ) implies result_has(out@, pair_cand(notes@[k], a, b)) by {
            lemma_result_has_extend(g4, out@, pair_cand(notes@[k], a, b));
        }
    }
    out
}

} // verus!
