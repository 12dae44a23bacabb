//! The closed vocabulary of harmonic alterations: modifiers and extensions.

use vstd::prelude::*;

verus! {

/// Anything that can act as a dominant-type seventh.
pub trait HasIsDominant {
    fn is_dominant(&self) -> bool;
}

/// The degree a dominant stack reaches: seventh, ninth, eleventh or
/// thirteenth.  A higher degree implicitly includes the lower ones.
#[derive(PartialEq, Eq, Copy, Clone, Hash, Debug, Ord, PartialOrd, Structural)]
pub enum Degree {
    Seven,
    Nine,
    Eleven,
    Thirteen,
}

/// A harmonic modifier: an alteration of the basic major-triad interval set.
#[derive(PartialEq, Eq, Copy, Clone, Hash, Debug, Ord, PartialOrd, Structural)]
pub enum Modifier {
    Minor,
    Flat5,
    Augmented5,
    Major7,
    Dominant(Degree),
    Flat9,
    Sharp9,
    Sharp11,
    Diminished,
}

/// An extension: an extra or replacement tone stacked onto the chord.
#[derive(PartialEq, Eq, Copy, Clone, Hash, Debug, Ord, PartialOrd, Structural)]
pub enum Extension {
    Sus2,
    Sus4,
    Flat11,
    Flat13,
    Sharp13,
    Add2,
    Add4,
    Add6,
    Add9,
    Add11,
    Add13,
}

/// Whether a modifier is a dominant-type seventh (of any degree).
pub open spec fn is_dominant_mod(m: Modifier) -> bool {
    m is Dominant
}

impl HasIsDominant for Modifier {
    fn is_dominant(&self) -> (r: bool)
        ensures
            r == is_dominant_mod(*self),
    {
        matches!(self, Modifier::Dominant(_))
    }
}

/// The canonical display token of a dominant degree.
pub open spec fn degree_name(d: Degree) -> Seq<char> {
    match d {
        Degree::Seven => "7"@,
        Degree::Nine => "9"@,
        Degree::Eleven => "11"@,
        Degree::Thirteen => "13"@,
    }
}

/// The canonical display token of a modifier.
pub open spec fn modifier_name(m: Modifier) -> Seq<char> {
    match m {
        Modifier::Minor => "m"@,
        Modifier::Flat5 => "♭5"@,
        Modifier::Augmented5 => "+"@,
        Modifier::Major7 => "maj7"@,
        Modifier::Dominant(d) => degree_name(d),
        Modifier::Flat9 => "♭9"@,
        Modifier::Sharp9 => "♯9"@,
        Modifier::Sharp11 => "♯11"@,
        Modifier::Diminished => "°"@,
    }
}

/// The canonical display token of an extension.
pub open spec fn extension_name(e: Extension) -> Seq<char> {
    match e {
        Extension::Sus2 => "sus2"@,
        Extension::Sus4 => "sus4"@,
        Extension::Flat11 => "♭11"@,
        Extension::Flat13 => "♭13"@,
        Extension::Sharp13 => "♯13"@,
        Extension::Add2 => "add2"@,
        Extension::Add4 => "add4"@,
        Extension::Add6 => "add6"@,
        Extension::Add9 => "add9"@,
        Extension::Add11 => "add11"@,
        Extension::Add13 => "add13"@,
    }
}

impl Degree {
    /// The canonical display token.
    pub fn static_name(&self) -> (r: &'static str)
        ensures
            r@ == degree_name(*self),
    {
        match self {
            Degree::Seven => "7",
            Degree::Nine => "9",
            Degree::Eleven => "11",
            Degree::Thirteen => "13",
        }
    }
}

impl Modifier {
    /// The canonical display token.
    pub fn static_name(&self) -> (r: &'static str)
        ensures
            r@ == modifier_name(*self),
    {
        match self {
            Modifier::Minor => "m",
            Modifier::Flat5 => "♭5",
            Modifier::Augmented5 => "+",
            Modifier::Major7 => "maj7",
            Modifier::Dominant(d) => d.static_name(),
            Modifier::Flat9 => "♭9",
            Modifier::Sharp9 => "♯9",
            Modifier::Sharp11 => "♯11",
            Modifier::Diminished => "°",
        }
    }
}

impl Extension {
    /// The canonical display token.
    pub fn static_name(&self) -> (r: &'static str)
        ensures
            r@ == extension_name(*self),
    {
        match self {
            Extension::Sus2 => "sus2",
            Extension::Sus4 => "sus4",
            Extension::Flat11 => "♭11",
            Extension::Flat13 => "♭13",
            Extension::Sharp13 => "♯13",
            Extension::Add2 => "add2",
            Extension::Add4 => "add4",
            Extension::Add6 => "add6",
            Extension::Add9 => "add9",
            Extension::Add11 => "add11",
            Extension::Add13 => "add13",
        }
    }
}

/// Membership test on a small modifier list, the executable face of
/// `Seq::contains`.
pub fn contains_mod(v: &Vec<Modifier>, m: Modifier) -> (r: bool)
    ensures
        r == v@.contains(m),
{
    let mut k: usize = 0;
    while k < v.len()
        invariant
            0 <= k <= v@.len(),
            forall|j: int| 0 <= j < k ==> v@[j] != m,
        decreases v@.len() - k,
    {
        if v[k] == m {
            return true;
        }
        k += 1;
    }
    false
}

/// Membership test on a small extension list.
pub fn contains_ext(v: &Vec<Extension>, e: Extension) -> (r: bool)
    ensures
        r == v@.contains(e),
{
    let mut k: usize = 0;
    while k < v.len()
        invariant
            0 <= k <= v@.len(),
            forall|j: int| 0 <= j < k ==> v@[j] != e,
        decreases v@.len() - k,
    {
        if v[k] == e {
            return true;
        }
        k += 1;
    }
    false
}

} // verus!
