//! The octave model: a bounded register ordinal with checked arithmetic.

use vstd::prelude::*;

verus! {

/// Anything that sits in a specific register has an octave.
pub trait HasOctave {
    fn octave(&self) -> Octave;
}

/// A register ordinal, `Zero` through `Ten` inclusive.
///
/// Octave arithmetic is checked: stepping outside the range is reported as a
/// [`RangeError`] instead of wrapping or clamping, since a silently wrong
/// register would produce audibly wrong output downstream.
#[derive(PartialEq, Eq, Copy, Clone, Hash, Debug, Ord, PartialOrd, Structural)]
pub enum Octave {
    Zero,
    One,
    Two,
    Three,
    Four,
    Five,
    Six,
    Seven,
    Eight,
    Nine,
    Ten,
}

/// Octave arithmetic left the valid range `0..=10`.
#[derive(PartialEq, Eq, Copy, Clone, Hash, Debug, Structural)]
pub enum RangeError {
    OctaveOverflow,
    OctaveUnderflow,
}

/// The ordinal a given octave stands for.
pub open spec fn octave_number(o: Octave) -> int {
    match o {
        Octave::Zero => 0,
        Octave::One => 1,
        Octave::Two => 2,
        Octave::Three => 3,
        Octave::Four => 4,
        Octave::Five => 5,
        Octave::Six => 6,
        Octave::Seven => 7,
        Octave::Eight => 8,
        Octave::Nine => 9,
        Octave::Ten => 10,
    }
}

/// The octave whose ordinal is `n`, for `n` in `0..=10`.
pub open spec fn octave_of_number(n: int) -> Octave {
    if n <= 0 {
        Octave::Zero
    } else if n == 1 {
        Octave::One
    } else if n == 2 {
        Octave::Two
    } else if n == 3 {
        Octave::Three
    } else if n == 4 {
        Octave::Four
    } else if n == 5 {
        Octave::Five
    } else if n == 6 {
        Octave::Six
    } else if n == 7 {
        Octave::Seven
    } else if n == 8 {
        Octave::Eight
    } else if n == 9 {
        Octave::Nine
    } else {
        Octave::Ten
    }
}

impl Octave {
    /// The ordinal of this octave as a machine integer.
    pub fn number(self) -> (n: u8)
        ensures
            n == octave_number(self),
    {
        match self {
            Octave::Zero => 0,
            Octave::One => 1,
            Octave::Two => 2,
            Octave::Three => 3,
            Octave::Four => 4,
            Octave::Five => 5,
            Octave::Six => 6,
            Octave::Seven => 7,
            Octave::Eight => 8,
            Octave::Nine => 9,
            Octave::Ten => 10,
        }
    }

    /// The octave with the given ordinal.
    pub fn from_number(n: u8) -> (o: Octave)
        requires
            n <= 10,
        ensures
            o == octave_of_number(n as int),
            octave_number(o) == n,
    {
        match n {
            0 => Octave::Zero,
            1 => Octave::One,
            2 => Octave::Two,
            3 => Octave::Three,
            4 => Octave::Four,
            5 => Octave::Five,
            6 => Octave::Six,
            7 => Octave::Seven,
            8 => Octave::Eight,
            9 => Octave::Nine,
            _ => Octave::Ten,
        }
    }

    /// Moves this octave up or down by `delta` steps.
    ///
    /// Returns the shifted octave when the result stays inside `0..=10`, and
    /// the exact out-of-range failure otherwise; the value never wraps.
    pub fn checked_add_i8(self, delta: i8) -> (r: Result<Octave, RangeError>)
        ensures
            0 <= octave_number(self) + delta <= 10 ==> r == Ok::<Octave, RangeError>(
                octave_of_number(octave_number(self) + delta),
            ),
            octave_number(self) + delta > 10 ==> r == Err::<Octave, RangeError>(
                RangeError::OctaveOverflow,
            ),
            octave_number(self) + delta < 0 ==> r == Err::<Octave, RangeError>(
                RangeError::OctaveUnderflow,
            ),
    {
        let n: i32 = self.number() as i32 + delta as i32;
        if n > 10 {
            Err(RangeError::OctaveOverflow)
        } else if n < 0 {
            Err(RangeError::OctaveUnderflow)
        } else {
            Ok(Octave::from_number(n as u8))
        }
    }

    /// Moves this octave down by `delta` steps, with the same checking as
    /// [`Octave::checked_add_i8`].
    pub fn checked_sub_i8(self, delta: i8) -> (r: Result<Octave, RangeError>)
        ensures
            0 <= octave_number(self) - delta <= 10 ==> r == Ok::<Octave, RangeError>(
                octave_of_number(octave_number(self) - delta),
            ),
            octave_number(self) - delta > 10 ==> r == Err::<Octave, RangeError>(
                RangeError::OctaveOverflow,
            ),
            octave_number(self) - delta < 0 ==> r == Err::<Octave, RangeError>(
                RangeError::OctaveUnderflow,
            ),
    {
        let n: i32 = self.number() as i32 - delta as i32;
        if n > 10 {
            Err(RangeError::OctaveOverflow)
        } else if n < 0 {
            Err(RangeError::OctaveUnderflow)
        } else {
            Ok(Octave::from_number(n as u8))
        }
    }
}

impl HasOctave for Octave {
    fn octave(&self) -> Octave {
        *self
    }
}

impl Default for Octave {
    /// The default register for a chord root.
    fn default() -> (r: Self)
        ensures
            r == Octave::Four,
    {
        Octave::Four
    }
}

/// Round-tripping an octave through its ordinal gives the octave back.
pub proof fn lemma_octave_number_roundtrip(o: Octave)
    ensures
        octave_of_number(octave_number(o)) == o,
{
}

} // verus!
