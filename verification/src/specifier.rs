//! One axis of a schedule: a rule that picks values out of an inclusive range.

use vstd::prelude::*;
use crate::ordinal::Ordinal;
use crate::rule::{
    all_within, holds_at_offset, on_stride, strictly_increasing, Rule, SpecifierView,
};
use vstd::arithmetic::div_mod::{lemma_fundamental_div_mod, lemma_fundamental_div_mod_converse};
use vstd::arithmetic::mul::lemma_mul_is_distributive_add_other_way;

verus! {

/// The rule by which a [`Specifier`] picks values from its range `[min, max]`.
#[derive(Debug, PartialEq, Eq)]
pub enum SpecifierKind {
    /// Picks nothing.
    Nothing,
    /// Picks every value of the range.
    All,
    /// Picks `min` only.
    First,
    /// Picks `max` only.
    Last,
    /// Picks `min + n`, if that lies in the range.
    Nth(u32),
    /// Picks `max - n`, if that lies in the range.
    BackNth(u32),
    /// Picks `min + i` for each `i` of the list.
    ExplicitNths(Vec<u32>),
    /// `EveryNth(step, offset)` picks `min + offset`, and from there every
    /// `step`-th value. With `step == 0` it picks `min + offset` alone.
    EveryNth(u32, u32),
    /// Picks the values of the list.
    ExplicitList(Vec<u32>),
}

/// A range `[min, max]` of ordinals with the rule that picks values from it.
#[derive(Debug, PartialEq, Eq)]
pub struct Specifier<T: Ordinal> {
    min: T,
    max: T,
    kind: SpecifierKind,
}

impl View for SpecifierKind {
    type V = Rule;

    open spec fn view(&self) -> Rule {
        match *self {
            SpecifierKind::Nothing => Rule::Nothing,
            SpecifierKind::All => Rule::All,
            SpecifierKind::First => Rule::First,
            SpecifierKind::Last => Rule::Last,
            SpecifierKind::Nth(n) => Rule::Nth(n),
            SpecifierKind::BackNth(n) => Rule::BackNth(n),
            SpecifierKind::ExplicitNths(indices) => Rule::ExplicitNths(indices@),
            SpecifierKind::EveryNth(step, offset) => Rule::EveryNth(step, offset),
            SpecifierKind::ExplicitList(values) => Rule::ExplicitList(values@),
        }
    }
}

impl Clone for SpecifierKind {
    fn clone(&self) -> (r: SpecifierKind)
        ensures
            r@ == self@,
    {
        match self {
            SpecifierKind::Nothing => SpecifierKind::Nothing,
            SpecifierKind::All => SpecifierKind::All,
            SpecifierKind::First => SpecifierKind::First,
            SpecifierKind::Last => SpecifierKind::Last,
            SpecifierKind::Nth(n) => SpecifierKind::Nth(*n),
            SpecifierKind::BackNth(n) => SpecifierKind::BackNth(*n),
            SpecifierKind::ExplicitNths(indices) => SpecifierKind::ExplicitNths(copy_list(indices)),
            SpecifierKind::EveryNth(step, offset) => SpecifierKind::EveryNth(*step, *offset),
            SpecifierKind::ExplicitList(values) => SpecifierKind::ExplicitList(copy_list(values)),
        }
    }
}

impl<T: Ordinal> View for Specifier<T> {
    type V = SpecifierView;

    open spec fn view(&self) -> SpecifierView {
        SpecifierView {
            lower: self.spec_min().ordinal() as int,
            upper: self.spec_max().ordinal() as int,
            rule: self.rule()@,
        }
    }
}

impl<T: Ordinal> Clone for Specifier<T> {
    fn clone(&self) -> (r: Specifier<T>)
        ensures
            r@ == self@,
            r.spec_min() == self.spec_min(),
            r.spec_max() == self.spec_max(),
    {
        proof {
            use_type_invariant(self);
        }
        Specifier { min: self.min, max: self.max, kind: self.kind.clone() }
    }
}

/// A vector with the elements of `list`.
fn copy_list(list: &Vec<u32>) -> (r: Vec<u32>)
    ensures
        r@ == list@,
{
    let mut out: Vec<u32> = Vec::new();
    let mut i: usize = 0;
    while i < list.len()
        invariant
            i <= list.len(),
            out@ == list@.subrange(0, i as int),
        decreases list.len() - i,
    {
        out.push(list[i]);
        i += 1;
        assert(out@ =~= list@.subrange(0, i as int));
    }
    assert(list@.subrange(0, list@.len() as int) =~= list@);
    out
}

/// The ordinal of the value an optional result holds.
pub open spec fn ordinal_of<T: Ordinal>(value: Option<T>) -> Option<int> {
    match value {
        Some(v) => Some(v.ordinal() as int),
        None => None,
    }
}

/// Whether two lists hold the same numbers in the same order.
fn same_list(a: &Vec<u32>, b: &Vec<u32>) -> (r: bool)
    ensures
        r == (a@ == b@),
{
    if a.len() != b.len() {
        return false;
    }
    let mut i: usize = 0;
    while i < a.len()
        invariant
            i <= a.len() == b.len(),
            forall|k: int| 0 <= k < i ==> a@[k] == b@[k],
        decreases a.len() - i,
    {
        if a[i] != b[i] {
            return false;
        }
        i += 1;
    }
    assert(a@ =~= b@);
    true
}

impl SpecifierKind {
    /// Whether two rules are the same.
    pub fn same_as(&self, other: &SpecifierKind) -> (r: bool)
        ensures
            r == (self@ == other@),
    {
        match (self, other) {
            (SpecifierKind::Nothing, SpecifierKind::Nothing) => true,
            (SpecifierKind::All, SpecifierKind::All) => true,
            (SpecifierKind::First, SpecifierKind::First) => true,
            (SpecifierKind::Last, SpecifierKind::Last) => true,
            (SpecifierKind::Nth(a), SpecifierKind::Nth(b)) => *a == *b,
            (SpecifierKind::BackNth(a), SpecifierKind::BackNth(b)) => *a == *b,
            (SpecifierKind::ExplicitNths(a), SpecifierKind::ExplicitNths(b)) => same_list(a, b),
            (SpecifierKind::EveryNth(a, c), SpecifierKind::EveryNth(b, d)) => *a == *b && *c == *d,
            (SpecifierKind::ExplicitList(a), SpecifierKind::ExplicitList(b)) => same_list(a, b),
            _ => false,
        }
    }

    /// Whether this is the rule that picks everything.
    pub fn is_all(&self) -> (r: bool)
        ensures
            r == (self@ == Rule::All),
    {
        matches!(self, SpecifierKind::All)
    }

    /// Whether this is the rule that picks nothing.
    pub fn is_nothing(&self) -> (r: bool)
        ensures
            r == (self@ == Rule::Nothing),
    {
        matches!(self, SpecifierKind::Nothing)
    }
}

/// Whether `list` holds an element `e` with `base + e == value`.
fn list_holds(list: &Vec<u32>, base: u32, value: u32) -> (r: bool)
    ensures
        r == holds_at_offset(list@, base as int, value as int),
{
    let mut i: usize = 0;
    while i < list.len()
        invariant
            i <= list.len(),
            forall|k: int| 0 <= k < i ==> base + #[trigger] list@[k] != value,
        decreases list.len() - i,
    {
        if base as u64 + list[i] as u64 == value as u64 {
            return true;
        }
        i += 1;
    }
    false
}

/// Puts `value` into the ascending list, unless the list holds it already.
fn insert_ascending(list: &mut Vec<u32>, value: u32)
    requires
        strictly_increasing(old(list)@),
    ensures
        strictly_increasing(final(list)@),
        forall|w: u32| final(list)@.contains(w) <==> old(list)@.contains(w) || w == value,
{
    let ghost before = list@;
    let mut at: usize = 0;
    while at < list.len() && list[at] < value
        invariant
            at <= list.len(),
            list@ == before,
            forall|k: int| 0 <= k < at ==> #[trigger] list@[k] < value,
        decreases list.len() - at,
    {
        at += 1;
    }
    if at < list.len() && list[at] == value {
        assert(list@.contains(value));
        return;
    }
    list.insert(at, value);
    assert(list@ == before.insert(at as int, value));
    assert forall|i: int, j: int| 0 <= i < j < list@.len() implies list@[i] < list@[j] by {
        if j < at {
            assert(before[i] < before[j]);
        } else if j == at {
            assert(before[i] < value);
        } else if i < at {
            assert(before[i] < before[j - 1]);
        } else if i == at {
            assert(value < before[j - 1]);
        } else {
            assert(before[i - 1] < before[j - 1]);
        }
    }
    assert forall|w: u32| list@.contains(w) <==> before.contains(w) || w == value by {
        if before.contains(w) {
            let k = choose|k: int| 0 <= k < before.len() && before[k] == w;
            if k < at {
                assert(list@[k] == w);
            } else {
                assert(list@[k + 1] == w);
            }
        }
        if w == value {
            assert(list@[at as int] == w);
        }
        if list@.contains(w) {
            let k = choose|k: int| 0 <= k < list@.len() && list@[k] == w;
            if k < at {
                assert(before[k] == w);
            } else if k > at {
                assert(before[k - 1] == w);
            }
        }
    }
}

/// The elements of `values` that lie in `[lo, hi]`, each once, ascending.
fn normalize(values: &Vec<u32>, lo: u32, hi: u32) -> (r: Vec<u32>)
    ensures
        strictly_increasing(r@),
        all_within(r@, lo as int, hi as int),
        forall|v: u32| r@.contains(v) <==> values@.contains(v) && lo <= v <= hi,
{
    let mut out: Vec<u32> = Vec::new();
    let mut i: usize = 0;
    while i < values.len()
        invariant
            i <= values.len(),
            strictly_increasing(out@),
            forall|v: u32|
                out@.contains(v) <==> values@.subrange(0, i as int).contains(v) && lo <= v <= hi,
        decreases values.len() - i,
    {
        let value = values[i];
        let ghost seen = values@.subrange(0, i as int);
        let ghost kept = out@;
        if lo <= value && value <= hi {
            insert_ascending(&mut out, value);
        }
        i += 1;
        assert forall|v: u32|
            out@.contains(v) <==> values@.subrange(0, i as int).contains(v) && lo <= v
                <= hi by {
            let now = values@.subrange(0, i as int);
            assert(now =~= seen.push(value));
            if seen.contains(v) {
                let k = choose|k: int| 0 <= k < seen.len() && seen[k] == v;
                assert(now[k] == v);
            }
            assert(now[i - 1] == value);
            if now.contains(v) {
                let k = choose|k: int| 0 <= k < now.len() && now[k] == v;
                if k < i - 1 {
                    assert(seen[k] == v);
                }
            }
        }
    }
    assert(values@.subrange(0, i as int) =~= values@);
    assert forall|k: int| 0 <= k < out@.len() implies lo <= #[trigger] out@[k] <= hi by {
        assert(out@.contains(out@[k]));
    }
    out
}

/// The first element `e` of the ascending list with `base + e > x`, or else the
/// first element of all; nothing for an empty list.
fn next_in_list(list: &Vec<u32>, base: u32, x: u32) -> (r: Option<u32>)
    requires
        strictly_increasing(list@),
        forall|i: int| 0 <= i < list@.len() ==> base + #[trigger] list@[i] <= u32::MAX,
    ensures
        r is None <==> list@.len() == 0,
        r matches Some(y) ==> {
            &&& holds_at_offset(list@, base as int, y as int)
            &&& forall|i: int| 0 <= i < list@.len() ==> y <= base + #[trigger] list@[i] || (y > x && base + list@[i] <= x)
            &&& y <= x ==> forall|i: int| 0 <= i < list@.len() ==> base + #[trigger] list@[i] <= x
        },
{
    if list.len() == 0 {
        return None;
    }
    let mut i: usize = 0;
    while i < list.len()
        invariant
            i <= list.len(),
            strictly_increasing(list@),
            forall|k: int| 0 <= k < i ==> base + #[trigger] list@[k] <= x,
            forall|k: int| 0 <= k < list@.len() ==> base + #[trigger] list@[k] <= u32::MAX,
        decreases list.len() - i,
    {
        if base + list[i] > x {
            let y = base + list[i];
            assert forall|k: int| 0 <= k < list@.len() implies y <= base + #[trigger] list@[k] || (y
                > x && base + list@[k] <= x) by {
                if k > i {
                    assert(list@[i as int] < list@[k]);
                }
            }
            return Some(y);
        }
        i += 1;
    }
    let y = base + list[0];
    assert forall|k: int| 0 <= k < list@.len() implies y <= base + #[trigger] list@[k] by {
        if k > 0 {
            assert(list@[0] < list@[k]);
        }
    }
    Some(y)
}

/// The smallest number above `x` that is `base` plus a multiple of `step`.
fn next_step(base: u64, step: u32, x: u32) -> (r: u64)
    requires
        step > 0,
        base <= x,
    ensures
        x < r <= x + step,
        on_stride(base as int, step as int, r as int),
        forall|z: int| x < z < r ==> !#[trigger] on_stride(base as int, step as int, z),
{
    let gap: u64 = x as u64 - base;
    let rounds: u64 = gap / (step as u64);
    proof {
        lemma_fundamental_div_mod(gap as int, step as int);
        lemma_mul_is_distributive_add_other_way(step as int, rounds as int, 1);
        assert(step * (rounds + 1) == step * rounds + step) by (nonlinear_arith);
    }
    let ahead: u64 = (rounds + 1) * (step as u64);
    proof {
        assert((rounds + 1) * step == step * rounds + step) by (nonlinear_arith);
        lemma_fundamental_div_mod_converse(ahead as int, step as int, rounds + 1, 0);
        assert forall|z: int| x < z < base + ahead implies !#[trigger] on_stride(
            base as int,
            step as int,
            z,
        ) by {
            let rest = z - base - step * rounds;
            assert(0 < rest < step);
            assert(z - base == rounds * step + rest) by (nonlinear_arith)
                requires
                    rest == z - base - step * rounds,
            ;
            lemma_fundamental_div_mod_converse(z - base, step as int, rounds as int, rest);
        }
    }
    base + ahead
}

impl<T: Ordinal> Specifier<T> {
    /// The lower end of the range.
    pub closed spec fn spec_min(self) -> T {
        self.min
    }

    /// The upper end of the range.
    pub closed spec fn spec_max(self) -> T {
        self.max
    }

    /// The rule.
    pub closed spec fn rule(self) -> SpecifierKind {
        self.kind
    }

    /// What every specifier satisfies: its view is well-formed and its range
    /// fits the ordinal type.
    #[verifier::type_invariant]
    pub open spec fn wf(self) -> bool {
        &&& self@.wf()
        &&& self@.upper < T::span()
    }

    /// The lower end of the range.
    pub fn min(&self) -> (r: T)
        ensures
            r == self.spec_min(),
    {
        self.min
    }

    /// The upper end of the range.
    pub fn max(&self) -> (r: T)
        ensures
            r == self.spec_max(),
    {
        self.max
    }

    /// How many ordinals the range holds.
    pub fn range_len(&self) -> (r: u32)
        requires
            self@.upper - self@.lower < u32::MAX,
        ensures
            r == self@.upper - self@.lower + 1,
    {
        proof {
            use_type_invariant(self);
        }
        self.max.to_u32() - self.min.to_u32() + 1
    }

    /// The rule.
    pub fn kind(&self) -> (r: &SpecifierKind)
        ensures
            *r == self.rule(),
            r@ == self@.rule,
    {
        &self.kind
    }

    /// Whether two specifiers have the same range and the same rule.
    pub fn same_as(&self, other: &Specifier<T>) -> (r: bool)
        ensures
            r == (self@ == other@),
    {
        self.min.to_u32() == other.min.to_u32() && self.max.to_u32() == other.max.to_u32()
            && self.kind.same_as(&other.kind)
    }

    /// Whether `x` lies in the range, whatever the rule.
    pub fn is_in_range(&self, x: T) -> (r: bool)
        ensures
            r == self@.in_range(x.ordinal() as int),
    {
        self.min.to_u32() <= x.to_u32() && self.max.to_u32() >= x.to_u32()
    }

    /// Whether the rule picks `x`.
    pub fn matches(&self, x: T) -> (r: bool)
        ensures
            r == self@.matches(x.ordinal() as int),
    {
        proof {
            use_type_invariant(self);
        }
        let lo = self.min.to_u32();
        let hi = self.max.to_u32();
        let xv = x.to_u32();
        if xv < lo || xv > hi {
            return false;
        }
        match &self.kind {
            SpecifierKind::Nothing => false,
            SpecifierKind::All => true,
            SpecifierKind::First => xv == lo,
            SpecifierKind::Last => xv == hi,
            SpecifierKind::Nth(n) => lo as u64 + *n as u64 == xv as u64,
            SpecifierKind::BackNth(n) => *n <= hi && hi - *n == xv,
            SpecifierKind::ExplicitNths(indices) => list_holds(indices, lo, xv),
            SpecifierKind::EveryNth(step, offset) => {
                let base: u64 = lo as u64 + *offset as u64;
                if base > xv as u64 {
                    false
                } else if *step == 0 {
                    xv as u64 == base
                } else {
                    (xv as u64 - base) % (*step as u64) == 0
                }
            },
            SpecifierKind::ExplicitList(values) => list_holds(values, 0, xv),
        }
    }

    /// A specifier over the range between `min` and `max`, whichever of the
    /// two is smaller coming first, with `kind` made normal for that range.
    pub fn new(min: T, max: T, kind: SpecifierKind) -> (r: Specifier<T>)
        ensures
            r.wf(),
            r.spec_min() == (if min.ordinal() > max.ordinal() { max } else { min }),
            r.spec_max() == (if min.ordinal() > max.ordinal() { min } else { max }),
            r@.rule.normal_form_of(kind@, r@.lower, r@.upper),
    {
        let (min, max) = if min.to_u32() > max.to_u32() {
            (max, min)
        } else {
            (min, max)
        };
        let lo = min.to_u32();
        let hi = max.to_u32();
        let kind = match kind {
            SpecifierKind::ExplicitList(values) => SpecifierKind::ExplicitList(
                normalize(&values, lo, hi),
            ),
            SpecifierKind::ExplicitNths(indices) => SpecifierKind::ExplicitNths(
                normalize(&indices, 0, hi - lo),
            ),
            other => other,
        };
        Specifier { min, max, kind }
    }

    /// The smallest value the rule picks, if it picks any.
    pub fn first_match(&self) -> (r: Option<T>)
        ensures
            ordinal_of(r) == self@.first_match(),
    {
        proof {
            use_type_invariant(self);
            self@.lemma_first_match_none(self@.upper + 1);
        }
        self.cyclic_next(self.max)
    }

    /// The smallest picked value above `x`, or the smallest picked value of all
    /// where none lies above `x`. Nothing where `x` lies outside the range or
    /// the rule picks nothing.
    pub fn cyclic_next(&self, x: T) -> (r: Option<T>)
        ensures
            ordinal_of(r) == self@.cyclic_next(x.ordinal() as int),
    {
        proof {
            use_type_invariant(self);
        }
        let lo = self.min.to_u32();
        let hi = self.max.to_u32();
        let xv = x.to_u32();
        if xv < lo || xv > hi {
            return None;
        }
        match self.next_value(lo, hi, xv) {
            Some(y) => {
                let next = T::from_u32(y);
                assert(next.ordinal() == y) by (nonlinear_arith)
                    requires
                        next.ordinal() == (y as nat) % T::span(),
                        y < T::span(),
                ;
                Some(next)
            },
            None => None,
        }
    }

    /// `cyclic_next` on numbers: `lo` and `hi` are the ends of the range and
    /// `x` lies between them.
    fn next_value(&self, lo: u32, hi: u32, x: u32) -> (r: Option<u32>)
        requires
            self.wf(),
            lo == self@.lower,
            hi == self@.upper,
            lo <= x <= hi,
        ensures
            r matches Some(y) ==> lo <= y <= hi && self@.cyclic_next(x as int) == Some(y as int),
            r is None ==> self@.cyclic_next(x as int) is None,
    {
        let ghost view = self@;
        match &self.kind {
            SpecifierKind::Nothing => {
                proof {
                    view.lemma_cyclic_next_nothing(x as int);
                }
                None
            },
            SpecifierKind::All => {
                if x < hi {
                    proof {
                        view.lemma_cyclic_next_above(x as int, x + 1);
                    }
                    Some(x + 1)
                } else {
                    proof {
                        view.lemma_cyclic_next_wraps(x as int, lo as int);
                    }
                    Some(lo)
                }
            },
            SpecifierKind::First => {
                proof {
                    view.lemma_cyclic_next_wraps(x as int, lo as int);
                }
                Some(lo)
            },
            SpecifierKind::Last => {
                proof {
                    if x < hi {
                        view.lemma_cyclic_next_above(x as int, hi as int);
                    } else {
                        view.lemma_cyclic_next_wraps(x as int, hi as int);
                    }
                }
                Some(hi)
            },
            SpecifierKind::Nth(n) => {
                if *n > hi - lo {
                    proof {
                        view.lemma_cyclic_next_nothing(x as int);
                    }
                    None
                } else {
                    let y = lo + *n;
                    proof {
                        if x < y {
                            view.lemma_cyclic_next_above(x as int, y as int);
                        } else {
                            view.lemma_cyclic_next_wraps(x as int, y as int);
                        }
                    }
                    Some(y)
                }
            },
            SpecifierKind::BackNth(n) => {
                if *n > hi - lo {
                    proof {
                        view.lemma_cyclic_next_nothing(x as int);
                    }
                    None
                } else {
                    let y = hi - *n;
                    proof {
                        if x < y {
                            view.lemma_cyclic_next_above(x as int, y as int);
                        } else {
                            view.lemma_cyclic_next_wraps(x as int, y as int);
                        }
                    }
                    Some(y)
                }
            },
            SpecifierKind::ExplicitNths(indices) => {
                let found = next_in_list(indices, lo, x);
                proof {
                    self.lemma_list_successor(indices@, lo as int, x as int, found);
                }
                found
            },
            SpecifierKind::EveryNth(step, offset) => {
                if *offset > hi - lo {
                    proof {
                        view.lemma_cyclic_next_nothing(x as int);
                    }
                    return None;
                }
                let base = lo + *offset;
                if *step == 0 || x < base {
                    proof {
                        if *step != 0 {
                            lemma_fundamental_div_mod_converse(0, *step as int, 0, 0);
                        }
                        if x < base {
                            view.lemma_cyclic_next_above(x as int, base as int);
                        } else {
                            view.lemma_cyclic_next_wraps(x as int, base as int);
                        }
                    }
                    return Some(base);
                }
                let ahead = next_step(base as u64, *step, x);
                if ahead <= hi as u64 {
                    proof {
                        view.lemma_cyclic_next_above(x as int, ahead as int);
                    }
                    Some(ahead as u32)
                } else {
                    proof {
                        lemma_fundamental_div_mod_converse(0, *step as int, 0, 0);
                        view.lemma_cyclic_next_wraps(x as int, base as int);
                    }
                    Some(base)
                }
            },
            SpecifierKind::ExplicitList(values) => {
                let found = next_in_list(values, 0, x);
                proof {
                    self.lemma_list_successor(values@, 0, x as int, found);
                }
                found
            },
        }
    }

    /// What `next_in_list` finds in the list of a list rule is the cyclic
    /// successor of `x`.
    proof fn lemma_list_successor(self, list: Seq<u32>, base: int, x: int, found: Option<u32>)
        requires
            self.wf(),
            self@.in_range(x),
            self@.rule == Rule::ExplicitNths(list) && base == self@.lower || self@.rule
                == Rule::ExplicitList(list) && base == 0,
            found is None <==> list.len() == 0,
            found matches Some(y) ==> {
                &&& holds_at_offset(list, base, y as int)
                &&& forall|i: int| 0 <= i < list.len() ==> y <= base + #[trigger] list[i] || (y > x && base + list[i] <= x)
                &&& y <= x ==> forall|i: int| 0 <= i < list.len() ==> base + #[trigger] list[i] <= x
            },
        ensures
            found matches Some(y) ==> self@.lower <= y <= self@.upper && self@.cyclic_next(x)
                == Some(y as int),
            found is None ==> self@.cyclic_next(x) is None,
    {
        let view = self@;
        match found {
            None => {
                view.lemma_cyclic_next_nothing(x);
            },
            Some(y) => {
                let at = choose|i: int| 0 <= i < list.len() && base + #[trigger] list[i] == y;
                assert(view.matches(y as int));
                if y > x {
                    view.lemma_cyclic_next_above(x, y as int);
                } else {
                    view.lemma_cyclic_next_wraps(x, y as int);
                }
            },
        }
    }
}

} // verus!
