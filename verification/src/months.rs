//! Months of the year, numbered from January.

use vstd::prelude::*;
use vstd::std_specs::convert::FromSpecImpl;
use crate::ordinal::Ordinal;

verus! {

/// Number of months.
pub const N: u8 = 12;

/// A month: January is 0, December is 11.
#[derive(Debug, PartialEq, Eq, PartialOrd, Ord, Clone, Copy, Structural)]
pub struct Month {
    month: u8,
}

impl Month {
    /// Every value holds a number below 12.
    #[verifier::type_invariant]
    pub closed spec fn wf(self) -> bool {
        self.month < 12
    }

    /// The number of the month, counted from January.
    pub closed spec fn index(self) -> nat {
        self.month as nat
    }

    /// The month with the given number.
    pub closed spec fn of_index(index: nat) -> Month {
        Month { month: index as u8 }
    }

    /// Numbers below 12 and well-formed values correspond one to one.
    pub proof fn lemma_index_bijection()
        ensures
            forall|i: nat| i < 12 ==> (#[trigger] Month::of_index(i)).index() == i && Month::of_index(i).wf(),
            forall|x: Month| x.wf() ==> x.index() < 12 && Month::of_index(#[trigger] x.index()) == x,
    {
    }

    fn new(month: u8) -> (r: Month)
        requires
            month < 12,
        ensures
            r == Month::of_index(month as nat),
            r.index() == month,
            r.wf(),
    {
        Month { month }
    }

    /// January, number 0.
    #[allow(non_snake_case)]
    pub fn January() -> (r: Month)
        ensures
            r.index() == 0,
            r.wf(),
    {
        Month::new(0)
    }

    /// February, number 1.
    #[allow(non_snake_case)]
    pub fn February() -> (r: Month)
        ensures
            r.index() == 1,
            r.wf(),
    {
        Month::new(1)
    }

    /// March, number 2.
    #[allow(non_snake_case)]
    pub fn March() -> (r: Month)
        ensures
            r.index() == 2,
            r.wf(),
    {
        Month::new(2)
    }

    /// April, number 3.
    #[allow(non_snake_case)]
    pub fn April() -> (r: Month)
        ensures
            r.index() == 3,
            r.wf(),
    {
        Month::new(3)
    }

    /// May, number 4.
    #[allow(non_snake_case)]
    pub fn May() -> (r: Month)
        ensures
            r.index() == 4,
            r.wf(),
    {
        Month::new(4)
    }

    /// June, number 5.
    #[allow(non_snake_case)]
    pub fn June() -> (r: Month)
        ensures
            r.index() == 5,
            r.wf(),
    {
        Month::new(5)
    }

    /// July, number 6.
    #[allow(non_snake_case)]
    pub fn July() -> (r: Month)
        ensures
            r.index() == 6,
            r.wf(),
    {
        Month::new(6)
    }

    /// August, number 7.
    #[allow(non_snake_case)]
    pub fn August() -> (r: Month)
        ensures
            r.index() == 7,
            r.wf(),
    {
        Month::new(7)
    }

    /// September, number 8.
    #[allow(non_snake_case)]
    pub fn September() -> (r: Month)
        ensures
            r.index() == 8,
            r.wf(),
    {
        Month::new(8)
    }

    /// October, number 9.
    #[allow(non_snake_case)]
    pub fn October() -> (r: Month)
        ensures
            r.index() == 9,
            r.wf(),
    {
        Month::new(9)
    }

    /// November, number 10.
    #[allow(non_snake_case)]
    pub fn November() -> (r: Month)
        ensures
            r.index() == 10,
            r.wf(),
    {
        Month::new(10)
    }

    /// December, number 11.
    #[allow(non_snake_case)]
    pub fn December() -> (r: Month)
        ensures
            r.index() == 11,
            r.wf(),
    {
        Month::new(11)
    }
}

impl From<u32> for Month {
    /// Converts cyclically: 12 is January again.
    fn from(value: u32) -> (r: Month)
        ensures
            r.index() == value % 12,
            r.wf(),
    {
        Month::new((value % 12) as u8)
    }
}

impl FromSpecImpl<u32> for Month {
    open spec fn obeys_from_spec() -> bool {
        true
    }

    open spec fn from_spec(value: u32) -> Month {
        Month::of_index((value % 12) as nat)
    }
}

impl From<Month> for u32 {
    fn from(value: Month) -> (r: u32)
        ensures
            r == value.index(),
            r < 12,
    {
        proof {
            use_type_invariant(&value);
        }
        value.month as u32
    }
}

impl FromSpecImpl<Month> for u32 {
    open spec fn obeys_from_spec() -> bool {
        true
    }

    open spec fn from_spec(value: Month) -> u32 {
        value.index() as u32
    }
}

impl Ordinal for Month {
    open spec fn span() -> nat {
        12
    }

    open spec fn ordinal(self) -> nat {
        self.index()
    }

    proof fn lemma_ordinal_injective(a: Self, b: Self) {
    }

    fn to_u32(self) -> (r: u32) {
        proof {
            use_type_invariant(&self);
        }
        self.month as u32
    }

    fn from_u32(value: u32) -> (r: Self) {
        Month::new((value % 12) as u8)
    }
}

} // verus!
