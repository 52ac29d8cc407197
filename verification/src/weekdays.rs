//! Days of the week, numbered from Monday.

use vstd::prelude::*;
use vstd::std_specs::convert::FromSpecImpl;
use crate::ordinal::Ordinal;

verus! {

/// Number of weekdays.
pub const N: u8 = 7;

/// A weekday: Monday is 0, Sunday is 6.
#[derive(Debug, PartialEq, Eq, PartialOrd, Ord, Clone, Copy, Structural)]
pub struct Weekday {
    day: u8,
}

impl Weekday {
    /// Every value holds a number below 7.
    #[verifier::type_invariant]
    pub closed spec fn wf(self) -> bool {
        self.day < 7
    }

    /// The number of the weekday, counted from Monday.
    pub closed spec fn index(self) -> nat {
        self.day as nat
    }

    /// The weekday with the given number.
    pub closed spec fn of_index(index: nat) -> Weekday {
        Weekday { day: index as u8 }
    }

    /// Numbers below 7 and well-formed values correspond one to one.
    pub proof fn lemma_index_bijection()
        ensures
            forall|i: nat| i < 7 ==> (#[trigger] Weekday::of_index(i)).index() == i && Weekday::of_index(i).wf(),
            forall|x: Weekday| x.wf() ==> x.index() < 7 && Weekday::of_index(#[trigger] x.index()) == x,
    {
    }

    fn new(day: u8) -> (r: Weekday)
        requires
            day < 7,
        ensures
            r == Weekday::of_index(day as nat),
            r.index() == day,
            r.wf(),
    {
        Weekday { day }
    }

    /// Monday, number 0.
    #[allow(non_snake_case)]
    pub fn Monday() -> (r: Weekday)
        ensures
            r.index() == 0,
            r.wf(),
    {
        Weekday::new(0)
    }

    /// Tuesday, number 1.
    #[allow(non_snake_case)]
    pub fn Tuesday() -> (r: Weekday)
        ensures
            r.index() == 1,
            r.wf(),
    {
        Weekday::new(1)
    }

    /// Wednesday, number 2.
    #[allow(non_snake_case)]
    pub fn Wednesday() -> (r: Weekday)
        ensures
            r.index() == 2,
            r.wf(),
    {
        Weekday::new(2)
    }

    /// Thursday, number 3.
    #[allow(non_snake_case)]
    pub fn Thursday() -> (r: Weekday)
        ensures
            r.index() == 3,
            r.wf(),
    {
        Weekday::new(3)
    }

    /// Friday, number 4.
    #[allow(non_snake_case)]
    pub fn Friday() -> (r: Weekday)
        ensures
            r.index() == 4,
            r.wf(),
    {
        Weekday::new(4)
    }

    /// Saturday, number 5.
    #[allow(non_snake_case)]
    pub fn Saturday() -> (r: Weekday)
        ensures
            r.index() == 5,
            r.wf(),
    {
        Weekday::new(5)
    }

    /// Sunday, number 6.
    #[allow(non_snake_case)]
    pub fn Sunday() -> (r: Weekday)
        ensures
            r.index() == 6,
            r.wf(),
    {
        Weekday::new(6)
    }

    /// The day after this one; Monday follows Sunday.
    pub fn tomorrow(self) -> (r: Weekday)
        ensures
            r.index() == (self.index() + 1) % 7,
            r.wf(),
    {
        proof {
            use_type_invariant(&self);
        }
        Weekday::new((self.day + 1) % 7)
    }

    /// The day before this one; Sunday precedes Monday.
    pub fn yesterday(self) -> (r: Weekday)
        ensures
            r.index() == (self.index() + 6) % 7,
            r.wf(),
    {
        proof {
            use_type_invariant(&self);
        }
        Weekday::new((7 + self.day - 1) % 7)
    }
}

impl From<u32> for Weekday {
    /// Converts cyclically: 7 is Monday again.
    fn from(value: u32) -> (r: Weekday)
        ensures
            r.index() == value % 7,
            r.wf(),
    {
        Weekday::new((value % 7) as u8)
    }
}

impl FromSpecImpl<u32> for Weekday {
    open spec fn obeys_from_spec() -> bool {
        true
    }

    open spec fn from_spec(value: u32) -> Weekday {
        Weekday::of_index((value % 7) as nat)
    }
}

impl From<Weekday> for u32 {
    fn from(value: Weekday) -> (r: u32)
        ensures
            r == value.index(),
            r < 7,
    {
        proof {
            use_type_invariant(&value);
        }
        value.day as u32
    }
}

impl FromSpecImpl<Weekday> for u32 {
    open spec fn obeys_from_spec() -> bool {
        true
    }

    open spec fn from_spec(value: Weekday) -> u32 {
        value.index() as u32
    }
}

impl Ordinal for Weekday {
    open spec fn span() -> nat {
        7
    }

    open spec fn ordinal(self) -> nat {
        self.index()
    }

    proof fn lemma_ordinal_injective(a: Self, b: Self) {
    }

    fn to_u32(self) -> (r: u32) {
        proof {
            use_type_invariant(&self);
        }
        self.day as u32
    }

    fn from_u32(value: u32) -> (r: Self) {
        Weekday::new((value % 7) as u8)
    }
}

} // verus!
