//! The mathematical model of a specifier: a range of integers, a rule, and
//! what the rule picks from the range.

use vstd::prelude::*;

verus! {

/// The rule of a specifier, over sequences in place of vectors.
pub enum Rule {
    /// Picks nothing.
    Nothing,
    /// Picks every value of the range.
    All,
    /// Picks the lower end.
    First,
    /// Picks the upper end.
    Last,
    /// Picks the lower end plus `n`.
    Nth(u32),
    /// Picks the upper end minus `n`.
    BackNth(u32),
    /// Picks the lower end plus `i`, for each `i` of the list.
    ExplicitNths(Seq<u32>),
    /// `EveryNth(step, offset)` picks the lower end plus `offset`, and from
    /// there every `step`-th value; with `step == 0`, that one value alone.
    EveryNth(u32, u32),
    /// Picks the values of the list.
    ExplicitList(Seq<u32>),
}

/// What a specifier is: the range `[lower, upper]` and the rule.
pub struct SpecifierView {
    pub lower: int,
    pub upper: int,
    pub rule: Rule,
}

/// Each element is smaller than every later one.
pub open spec fn strictly_increasing(s: Seq<u32>) -> bool {
    forall|i: int, j: int| 0 <= i < j < s.len() ==> s[i] < s[j]
}

/// `list` holds an element `e` with `base + e == value`.
pub open spec fn holds_at_offset(list: Seq<u32>, base: int, value: int) -> bool {
    exists|i: int| 0 <= i < list.len() && base + #[trigger] list[i] == value
}

/// `x` is `base` or lies a positive multiple of `step` above it.
pub open spec fn on_stride(base: int, step: int, x: int) -> bool {
    x >= base && (x - base) % step == 0
}

/// Every element of `list` lies in `[lo, hi]`.
pub open spec fn all_within(list: Seq<u32>, lo: int, hi: int) -> bool {
    forall|i: int| 0 <= i < list.len() ==> lo <= #[trigger] list[i] <= hi
}

impl Rule {
    /// Whether the rule, applied to the range `[lower, upper]`, picks `x`.
    pub open spec fn picks(self, lower: int, upper: int, x: int) -> bool {
        lower <= x <= upper && match self {
            Rule::Nothing => false,
            Rule::All => true,
            Rule::First => x == lower,
            Rule::Last => x == upper,
            Rule::Nth(n) => x == lower + n,
            Rule::BackNth(n) => x == upper - n,
            Rule::ExplicitNths(indices) => holds_at_offset(indices, lower, x),
            Rule::EveryNth(step, offset) => if step == 0 {
                x == lower + offset
            } else {
                on_stride(lower + offset, step as int, x)
            },
            Rule::ExplicitList(values) => holds_at_offset(values, 0, x),
        }
    }

    /// The list of a list rule is sorted, holds nothing twice and nothing that
    /// falls outside the range `[lower, upper]`.
    pub open spec fn normal(self, lower: int, upper: int) -> bool {
        match self {
            Rule::ExplicitNths(indices) => strictly_increasing(indices) && all_within(
                indices,
                0,
                upper - lower,
            ),
            Rule::ExplicitList(values) => strictly_increasing(values) && all_within(
                values,
                lower,
                upper,
            ),
            _ => true,
        }
    }
}

/// Ascending lists that hold the same numbers are the same list.
pub proof fn lemma_increasing_unique(a: Seq<u32>, b: Seq<u32>)
    requires
        strictly_increasing(a),
        strictly_increasing(b),
        forall|v: u32| a.contains(v) <==> b.contains(v),
    ensures
        a == b,
    decreases a.len(),
{
    if a.len() == 0 {
        if b.len() > 0 {
            assert(b.contains(b[0]));
        }
        assert(a =~= b);
    } else {
        assert(a.contains(a[0]));
        let j = choose|j: int| 0 <= j < b.len() && b[j] == a[0];
        assert(b.contains(b[0]));
        let i = choose|i: int| 0 <= i < a.len() && a[i] == b[0];
        assert(a[0] == b[0]) by {
            if i > 0 {
                assert(a[0] < a[i]);
            }
            if j > 0 {
                assert(b[0] < b[j]);
            }
        }
        let rest_a = a.skip(1);
        let rest_b = b.skip(1);
        assert forall|v: u32| rest_a.contains(v) <==> rest_b.contains(v) by {
            if rest_a.contains(v) {
                let k = choose|k: int| 0 <= k < rest_a.len() && rest_a[k] == v;
                assert(a[k + 1] == v);
                assert(a[0] < a[k + 1]);
                assert(a.contains(v));
                let m = choose|m: int| 0 <= m < b.len() && b[m] == v;
                assert(m > 0);
                assert(rest_b[m - 1] == v);
            }
            if rest_b.contains(v) {
                let k = choose|k: int| 0 <= k < rest_b.len() && rest_b[k] == v;
                assert(b[k + 1] == v);
                assert(b[0] < b[k + 1]);
                assert(b.contains(v));
                let m = choose|m: int| 0 <= m < a.len() && a[m] == v;
                assert(m > 0);
                assert(rest_a[m - 1] == v);
            }
        }
        assert(strictly_increasing(rest_a)) by {
            assert forall|x: int, y: int| 0 <= x < y < rest_a.len() implies rest_a[x]
                < rest_a[y] by {
                assert(a[x + 1] < a[y + 1]);
            }
        }
        assert(strictly_increasing(rest_b)) by {
            assert forall|x: int, y: int| 0 <= x < y < rest_b.len() implies rest_b[x]
                < rest_b[y] by {
                assert(b[x + 1] < b[y + 1]);
            }
        }
        lemma_increasing_unique(rest_a, rest_b);
        assert(a =~= seq![a[0]] + rest_a);
        assert(b =~= seq![b[0]] + rest_b);
    }
}

impl Rule {
    /// A rule has one normal form only.
    pub proof fn lemma_normal_form_unique(self, other: Rule, given: Rule, lower: int, upper: int)
        requires
            self.normal_form_of(given, lower, upper),
            other.normal_form_of(given, lower, upper),
        ensures
            self == other,
    {
        match given {
            Rule::ExplicitNths(_) => {
                lemma_increasing_unique(self->ExplicitNths_0, other->ExplicitNths_0);
            },
            Rule::ExplicitList(_) => {
                lemma_increasing_unique(self->ExplicitList_0, other->ExplicitList_0);
            },
            _ => {},
        }
    }

    /// Whether `self` is `given` made normal for the range `[lower, upper]`:
    /// a list rule keeps exactly the elements of its list that lie in the
    /// range, each once and in ascending order; any other rule is unchanged.
    pub open spec fn normal_form_of(self, given: Rule, lower: int, upper: int) -> bool {
        match given {
            Rule::ExplicitNths(indices) => {
                &&& self matches Rule::ExplicitNths(kept)
                &&& strictly_increasing(kept)
                &&& forall|v: u32| kept.contains(v) <==> indices.contains(v) && v <= upper - lower
            },
            Rule::ExplicitList(values) => {
                &&& self matches Rule::ExplicitList(kept)
                &&& strictly_increasing(kept)
                &&& forall|v: u32| kept.contains(v) <==> values.contains(v) && lower <= v <= upper
            },
            _ => self == given,
        }
    }
}

impl SpecifierView {
    /// The range is not inverted and lies within the 32-bit numbers, and the
    /// rule is normal for it.
    pub open spec fn wf(self) -> bool {
        &&& 0 <= self.lower <= self.upper <= u32::MAX
        &&& self.rule.normal(self.lower, self.upper)
    }

    /// Whether `x` lies in the range.
    pub open spec fn in_range(self, x: int) -> bool {
        self.lower <= x <= self.upper
    }

    /// Whether the specifier picks `x`.
    pub open spec fn matches(self, x: int) -> bool {
        self.rule.picks(self.lower, self.upper, x)
    }

    /// The smallest picked value that is at least `lo`, if there is one.
    pub open spec fn first_match_from(self, lo: int) -> Option<int>
        decreases self.upper - lo + 1,
    {
        if lo > self.upper {
            None
        } else if self.matches(lo) {
            Some(lo)
        } else {
            self.first_match_from(lo + 1)
        }
    }

    /// The smallest picked value of all, if anything is picked.
    pub open spec fn first_match(self) -> Option<int> {
        self.first_match_from(self.lower)
    }

    /// The smallest picked value above `x`; where there is none, the smallest
    /// picked value of all. Nothing for an `x` outside the range.
    pub open spec fn cyclic_next(self, x: int) -> Option<int> {
        if !self.in_range(x) {
            None
        } else {
            match self.first_match_from(x + 1) {
                Some(y) => Some(y),
                None => self.first_match(),
            }
        }
    }

    /// The value before `x` in the range, the upper end coming before the
    /// lower end.
    pub open spec fn cyclic_prev(self, x: int) -> int {
        if x == self.lower {
            self.upper
        } else {
            x - 1
        }
    }

    /// Nothing in `[lo, hi]` is picked.
    pub open spec fn none_within(self, lo: int, hi: int) -> bool {
        forall|z: int| lo <= z <= hi ==> !self.matches(z)
    }

    /// What `first_match_from` returns is picked and at least `lo`, and nothing
    /// between `lo` and it is picked; it returns nothing only where nothing from
    /// `lo` on is picked.
    pub proof fn lemma_first_match_from(self, lo: int)
        ensures
            match self.first_match_from(lo) {
                Some(y) => lo <= y <= self.upper && self.matches(y) && self.none_within(lo, y - 1),
                None => self.none_within(lo, self.upper),
            },
        decreases self.upper - lo + 1,
    {
        if lo <= self.upper && !self.matches(lo) {
            self.lemma_first_match_from(lo + 1);
        }
    }

    /// A picked value `y >= lo` below which, from `lo` on, nothing is picked is
    /// what `first_match_from(lo)` returns.
    pub proof fn lemma_first_match_is(self, lo: int, y: int)
        requires
            lo <= y,
            self.matches(y),
            self.none_within(lo, y - 1),
        ensures
            self.first_match_from(lo) == Some(y),
    {
        self.lemma_first_match_from(lo);
    }

    /// Where nothing from `lo` on is picked, `first_match_from(lo)` returns
    /// nothing.
    pub proof fn lemma_first_match_none(self, lo: int)
        requires
            self.none_within(lo, self.upper),
        ensures
            self.first_match_from(lo) is None,
    {
        self.lemma_first_match_from(lo);
    }

    /// A picked value above `x` with nothing picked between the two is the
    /// cyclic successor of `x`.
    pub proof fn lemma_cyclic_next_above(self, x: int, y: int)
        requires
            self.in_range(x),
            x < y,
            self.matches(y),
            self.none_within(x + 1, y - 1),
        ensures
            self.cyclic_next(x) == Some(y),
    {
        self.lemma_first_match_is(x + 1, y);
    }

    /// Where nothing above `x` is picked, the smallest picked value is the
    /// cyclic successor of `x`.
    pub proof fn lemma_cyclic_next_wraps(self, x: int, y: int)
        requires
            self.in_range(x),
            self.none_within(x + 1, self.upper),
            self.matches(y),
            self.none_within(self.lower, y - 1),
        ensures
            self.cyclic_next(x) == Some(y),
    {
        self.lemma_first_match_none(x + 1);
        self.lemma_first_match_is(self.lower, y);
    }

    /// Where nothing is picked, nothing has a cyclic successor.
    pub proof fn lemma_cyclic_next_nothing(self, x: int)
        requires
            self.none_within(self.lower, self.upper),
        ensures
            self.cyclic_next(x) is None,
    {
        self.lemma_first_match_from(x + 1);
        self.lemma_first_match_from(self.lower);
    }

    /// `cyclic_next` returns nothing exactly where `x` lies outside the range
    /// or nothing at all is picked; what it returns is picked.
    pub proof fn lemma_cyclic_next_matches(self, x: int)
        ensures
            self.cyclic_next(x) is None <==> !self.in_range(x) || self.none_within(
                self.lower,
                self.upper,
            ),
            self.cyclic_next(x) matches Some(y) ==> self.matches(y),
    {
        self.lemma_first_match_from(x + 1);
        self.lemma_first_match_from(self.lower);
    }

    /// A value of the range is picked exactly if it is the cyclic successor of
    /// the value before it.
    pub proof fn lemma_matches_iff_next_of_prev(self, x: int)
        requires
            self.lower <= self.upper,
            self.in_range(x),
        ensures
            self.matches(x) <==> self.cyclic_next(self.cyclic_prev(x)) == Some(x),
    {
        let p = self.cyclic_prev(x);
        self.lemma_first_match_from(p + 1);
        self.lemma_first_match_from(self.lower);
        if self.matches(x) {
            if x == self.lower {
                self.lemma_first_match_none(self.upper + 1);
                self.lemma_first_match_is(self.lower, x);
            } else {
                self.lemma_first_match_is(x, x);
            }
        }
    }
}

} // verus!
