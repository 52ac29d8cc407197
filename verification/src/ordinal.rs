//! Values that stand for a position on one axis of a schedule.

use vstd::prelude::*;

verus! {

/// A type whose values are numbered `0 .. span()`.
///
/// `to_u32` gives a value's number; `from_u32` is its inverse on numbers below
/// `span()` and wraps larger numbers around.
pub trait Ordinal: Copy + Sized {
    /// How many values the type has.
    spec fn span() -> nat;

    /// The number of a value.
    spec fn ordinal(self) -> nat;

    /// Different values have different numbers.
    proof fn lemma_ordinal_injective(a: Self, b: Self)
        requires
            a.ordinal() == b.ordinal(),
        ensures
            a == b,
    ;

    fn to_u32(self) -> (r: u32)
        ensures
            r == self.ordinal(),
            self.ordinal() < Self::span(),
    ;

    fn from_u32(value: u32) -> (r: Self)
        ensures
            Self::span() > 0,
            r.ordinal() == (value as nat) % Self::span(),
    ;
}

impl Ordinal for u32 {
    open spec fn span() -> nat {
        0x1_0000_0000
    }

    open spec fn ordinal(self) -> nat {
        self as nat
    }

    proof fn lemma_ordinal_injective(a: Self, b: Self) {
    }

    fn to_u32(self) -> (r: u32) {
        self
    }

    fn from_u32(value: u32) -> (r: Self) {
        value
    }
}

} // verus!
