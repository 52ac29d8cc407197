//! Specifiers and intervals as they travel in protobuf messages: a number for
//! the kind of rule, and the rule's numbers in a list.

use vstd::prelude::*;
use vstd::string::StringExecFns;
use crate::interval::{holds_rule, Interval, IntervalBuilder, IntervalView};
use crate::ordinal::Ordinal;
use crate::rule::{Rule, SpecifierView};
use crate::specifier::{Specifier, SpecifierKind};

verus! {

/// The kind of a rule, as a message names it.
#[derive(Debug, Clone, Copy, PartialEq, Eq, Structural)]
pub enum ProtoSpecifierKind {
    Nothing,
    All,
    First,
    Last,
    Nth,
    BackNth,
    ExplicitNths,
    EveryNth,
    ExplicitList,
}

/// A specifier in a message.
#[derive(Debug)]
pub struct ProtoSpecifier {
    pub kind: i32,
    pub values: Vec<u32>,
}

/// An interval in a message. An axis may be missing.
#[derive(Debug)]
pub struct ProtoInterval {
    pub minutes: Option<ProtoSpecifier>,
    pub hours: Option<ProtoSpecifier>,
    pub weekdays: Option<ProtoSpecifier>,
    pub monthdays: Option<ProtoSpecifier>,
    pub weeks: Option<ProtoSpecifier>,
    pub months: Option<ProtoSpecifier>,
}

/// The number that stands for a kind in a message.
pub open spec fn kind_code(kind: ProtoSpecifierKind) -> int {
    match kind {
        ProtoSpecifierKind::Nothing => 0,
        ProtoSpecifierKind::All => 1,
        ProtoSpecifierKind::First => 2,
        ProtoSpecifierKind::Last => 3,
        ProtoSpecifierKind::Nth => 4,
        ProtoSpecifierKind::BackNth => 5,
        ProtoSpecifierKind::ExplicitNths => 6,
        ProtoSpecifierKind::EveryNth => 7,
        ProtoSpecifierKind::ExplicitList => 8,
    }
}

/// The kind of a rule.
pub open spec fn kind_of(rule: Rule) -> ProtoSpecifierKind {
    match rule {
        Rule::Nothing => ProtoSpecifierKind::Nothing,
        Rule::All => ProtoSpecifierKind::All,
        Rule::First => ProtoSpecifierKind::First,
        Rule::Last => ProtoSpecifierKind::Last,
        Rule::Nth(_) => ProtoSpecifierKind::Nth,
        Rule::BackNth(_) => ProtoSpecifierKind::BackNth,
        Rule::ExplicitNths(_) => ProtoSpecifierKind::ExplicitNths,
        Rule::EveryNth(_, _) => ProtoSpecifierKind::EveryNth,
        Rule::ExplicitList(_) => ProtoSpecifierKind::ExplicitList,
    }
}

/// The numbers of a rule, as a message lists them.
pub open spec fn values_of(rule: Rule) -> Seq<u32> {
    match rule {
        Rule::Nth(n) => seq![n],
        Rule::BackNth(n) => seq![n],
        Rule::ExplicitNths(indices) => indices,
        Rule::EveryNth(step, offset) => seq![step, offset],
        Rule::ExplicitList(values) => values,
        _ => Seq::empty(),
    }
}

/// The rule that a message gives by the number of its kind and its list of
/// numbers, or else why it gives none: the number stands for no kind, or the
/// list is too short for the kind. Numbers beyond those a kind needs are
/// passed over.
pub open spec fn rule_of(code: int, values: Seq<u32>) -> Result<Rule, Seq<char>> {
    if code == 0 {
        Ok(Rule::Nothing)
    } else if code == 1 {
        Ok(Rule::All)
    } else if code == 2 {
        Ok(Rule::First)
    } else if code == 3 {
        Ok(Rule::Last)
    } else if code == 4 {
        if values.len() < 1 {
            Err("No value for SpecifierKind::Nth provided!"@)
        } else {
            Ok(Rule::Nth(values[0]))
        }
    } else if code == 5 {
        if values.len() < 1 {
            Err("No value for SpecifierKind::BackNth provided!"@)
        } else {
            Ok(Rule::BackNth(values[0]))
        }
    } else if code == 6 {
        Ok(Rule::ExplicitNths(values))
    } else if code == 7 {
        if values.len() < 2 {
            Err("Not enough values provided for SpecifierKind::EveryNth!"@)
        } else {
            Ok(Rule::EveryNth(values[0], values[1]))
        }
    } else if code == 8 {
        Ok(Rule::ExplicitList(values))
    } else {
        Err("Unknown SpecifierKind"@)
    }
}

/// A rule comes back from the message it was put into.
pub proof fn lemma_rule_round_trip(rule: Rule)
    ensures
        rule_of(kind_code(kind_of(rule)), values_of(rule)) == Ok::<Rule, Seq<char>>(rule),
{
}

impl ProtoSpecifierKind {
    /// The number that stands for the kind in a message.
    pub fn code(&self) -> (r: i32)
        ensures
            r == kind_code(*self),
    {
        match self {
            ProtoSpecifierKind::Nothing => 0,
            ProtoSpecifierKind::All => 1,
            ProtoSpecifierKind::First => 2,
            ProtoSpecifierKind::Last => 3,
            ProtoSpecifierKind::Nth => 4,
            ProtoSpecifierKind::BackNth => 5,
            ProtoSpecifierKind::ExplicitNths => 6,
            ProtoSpecifierKind::EveryNth => 7,
            ProtoSpecifierKind::ExplicitList => 8,
        }
    }
}

/// The view of a rule that was read, or the text of the refusal.
pub open spec fn read_view(r: Result<SpecifierKind, String>) -> Result<Rule, Seq<char>> {
    match r {
        Ok(kind) => Ok(kind@),
        Err(msg) => Err(msg@),
    }
}

/// The rule that a specifier in a message gives.
pub fn to_specifier_kind(specifier: ProtoSpecifier) -> (r: Result<SpecifierKind, String>)
    ensures
        read_view(r) == rule_of(specifier.kind as int, specifier.values@),
{
    let kind = specifier.kind;
    let values = specifier.values;
    if kind == 0 {
        Ok(SpecifierKind::Nothing)
    } else if kind == 1 {
        Ok(SpecifierKind::All)
    } else if kind == 2 {
        Ok(SpecifierKind::First)
    } else if kind == 3 {
        Ok(SpecifierKind::Last)
    } else if kind == 4 {
        if values.len() < 1 {
            Err(String::from_str("No value for SpecifierKind::Nth provided!"))
        } else {
            Ok(SpecifierKind::Nth(values[0]))
        }
    } else if kind == 5 {
        if values.len() < 1 {
            Err(String::from_str("No value for SpecifierKind::BackNth provided!"))
        } else {
            Ok(SpecifierKind::BackNth(values[0]))
        }
    } else if kind == 6 {
        Ok(SpecifierKind::ExplicitNths(values))
    } else if kind == 7 {
        if values.len() < 2 {
            Err(String::from_str("Not enough values provided for SpecifierKind::EveryNth!"))
        } else {
            Ok(SpecifierKind::EveryNth(values[0], values[1]))
        }
    } else if kind == 8 {
        Ok(SpecifierKind::ExplicitList(values))
    } else {
        Err(String::from_str("Unknown SpecifierKind"))
    }
}

/// The kind of a rule, as a message names it.
pub fn to_proto_specifier_kind(kind: &SpecifierKind) -> (r: ProtoSpecifierKind)
    ensures
        r == kind_of(kind@),
{
    match kind {
        SpecifierKind::Nothing => ProtoSpecifierKind::Nothing,
        SpecifierKind::All => ProtoSpecifierKind::All,
        SpecifierKind::First => ProtoSpecifierKind::First,
        SpecifierKind::Last => ProtoSpecifierKind::Last,
        SpecifierKind::Nth(_) => ProtoSpecifierKind::Nth,
        SpecifierKind::BackNth(_) => ProtoSpecifierKind::BackNth,
        SpecifierKind::ExplicitNths(_) => ProtoSpecifierKind::ExplicitNths,
        SpecifierKind::EveryNth(_, _) => ProtoSpecifierKind::EveryNth,
        SpecifierKind::ExplicitList(_) => ProtoSpecifierKind::ExplicitList,
    }
}

/// A list with the numbers of `list`.
fn copy_numbers(list: &Vec<u32>) -> (r: Vec<u32>)
    ensures
        r@ == list@,
{
    let mut out: Vec<u32> = Vec::new();
    let mut i: usize = 0;
    while i < list.len()
        invariant
            i <= list.len(),
            out@ == list@.subrange(0, i as int),
        decreases list.len() - i,
    {
        out.push(list[i]);
        i += 1;
        assert(out@ =~= list@.subrange(0, i as int));
    }
    assert(list@.subrange(0, list@.len() as int) =~= list@);
    out
}

/// The specifier as it goes into a message: the kind of its rule and the
/// rule's numbers. The range stays behind.
pub fn to_proto_specifier<T: Ordinal>(specifier: &Specifier<T>) -> (r: ProtoSpecifier)
    ensures
        r.kind == kind_code(kind_of(specifier@.rule)),
        r.values@ == values_of(specifier@.rule),
{
    let kind = to_proto_specifier_kind(specifier.kind()).code();
    let mut values: Vec<u32> = Vec::new();
    match specifier.kind() {
        SpecifierKind::Nothing | SpecifierKind::All | SpecifierKind::First | SpecifierKind::Last => {},
        SpecifierKind::Nth(val) => {
            values.push(*val);
        },
        SpecifierKind::BackNth(val) => {
            values.push(*val);
        },
        SpecifierKind::ExplicitNths(vals) => {
            values = copy_numbers(vals);
        },
        SpecifierKind::EveryNth(n, offset) => {
            values.push(*n);
            values.push(*offset);
        },
        SpecifierKind::ExplicitList(vals) => {
            values = copy_numbers(vals);
        },
    }
    assert(values@ =~= values_of(specifier@.rule));
    ProtoSpecifier { kind, values }
}

/// The interval as it goes into a message, every axis given.
pub fn to_proto_interval(interval: &Interval) -> (r: ProtoInterval)
    ensures
        r.minutes matches Some(s) && s.kind == kind_code(kind_of(interval@.minutes.rule))
            && s.values@ == values_of(interval@.minutes.rule),
        r.hours matches Some(s) && s.kind == kind_code(kind_of(interval@.hours.rule)) && s.values@
            == values_of(interval@.hours.rule),
        r.weekdays matches Some(s) && s.kind == kind_code(kind_of(interval@.weekdays.rule))
            && s.values@ == values_of(interval@.weekdays.rule),
        r.monthdays matches Some(s) && s.kind == kind_code(kind_of(interval@.monthdays.rule))
            && s.values@ == values_of(interval@.monthdays.rule),
        r.weeks matches Some(s) && s.kind == kind_code(kind_of(interval@.weeks.rule)) && s.values@
            == values_of(interval@.weeks.rule),
        r.months matches Some(s) && s.kind == kind_code(kind_of(interval@.months.rule))
            && s.values@ == values_of(interval@.months.rule),
{
    ProtoInterval {
        minutes: Some(to_proto_specifier(&interval.minutes)),
        hours: Some(to_proto_specifier(&interval.hours)),
        weekdays: Some(to_proto_specifier(&interval.weekdays)),
        monthdays: Some(to_proto_specifier(&interval.monthdays)),
        weeks: Some(to_proto_specifier(&interval.weeks)),
        months: Some(to_proto_specifier(&interval.months)),
    }
}

/// What a message gives for one axis: nothing, a rule, or a refusal.
pub open spec fn axis_of(specifier: Option<ProtoSpecifier>) -> Option<Result<Rule, Seq<char>>> {
    match specifier {
        Some(s) => Some(rule_of(s.kind as int, s.values@)),
        None => None,
    }
}

/// The first refusal among the axes of a message, in the order of the fields.
pub open spec fn first_refusal(proto: ProtoInterval) -> Option<Seq<char>> {
    if let Some(Err(msg)) = axis_of(proto.minutes) {
        Some(msg)
    } else if let Some(Err(msg)) = axis_of(proto.hours) {
        Some(msg)
    } else if let Some(Err(msg)) = axis_of(proto.weekdays) {
        Some(msg)
    } else if let Some(Err(msg)) = axis_of(proto.monthdays) {
        Some(msg)
    } else if let Some(Err(msg)) = axis_of(proto.weeks) {
        Some(msg)
    } else if let Some(Err(msg)) = axis_of(proto.months) {
        Some(msg)
    } else {
        None
    }
}

/// `v` is what the axis of a message gives over the range `[lower, upper]`:
/// the rule of the message made normal, or `All` where the axis is missing.
pub open spec fn axis_holds(
    v: SpecifierView,
    axis: Option<Result<Rule, Seq<char>>>,
    lower: int,
    upper: int,
) -> bool {
    match axis {
        Some(Ok(rule)) => holds_rule(v, rule, lower, upper),
        _ => v == SpecifierView { lower, upper, rule: Rule::All },
    }
}

/// The interval that a message gives: each axis with the rule of the message,
/// made normal, and `All` for an axis that is missing, or for all of them
/// where the message has no interval. The first axis that gives no rule has
/// the whole message refused.
pub fn interval_from_proto(proto: Option<ProtoInterval>) -> (r: Result<Interval, String>)
    ensures
        match proto {
            None => r matches Ok(interval) && interval@ == (IntervalView {
                minutes: SpecifierView { lower: 0, upper: 59, rule: Rule::All },
                hours: SpecifierView { lower: 0, upper: 23, rule: Rule::All },
                weekdays: SpecifierView { lower: 0, upper: 6, rule: Rule::All },
                monthdays: SpecifierView { lower: 0, upper: 31, rule: Rule::All },
                weeks: SpecifierView { lower: 0, upper: 52, rule: Rule::All },
                months: SpecifierView { lower: 0, upper: 11, rule: Rule::All },
            }),
            Some(message) => match first_refusal(message) {
                Some(msg) => r matches Err(report) && report@ == msg,
                None => r matches Ok(interval) && {
                    &&& axis_holds(interval@.minutes, axis_of(message.minutes), 0, 59)
                    &&& axis_holds(interval@.hours, axis_of(message.hours), 0, 23)
                    &&& axis_holds(interval@.weekdays, axis_of(message.weekdays), 0, 6)
                    &&& axis_holds(interval@.monthdays, axis_of(message.monthdays), 0, 31)
                    &&& axis_holds(interval@.weeks, axis_of(message.weeks), 0, 52)
                    &&& axis_holds(interval@.months, axis_of(message.months), 0, 11)
                },
            },
        },
{
    let mut builder = IntervalBuilder::default();
    if let Some(message) = proto {
        if let Some(minutes) = message.minutes {
            match to_specifier_kind(minutes) {
                Ok(kind) => {
                    builder.minutes(kind);
                },
                Err(msg) => {
                    return Err(msg);
                },
            }
        }
        if let Some(hours) = message.hours {
            match to_specifier_kind(hours) {
                Ok(kind) => {
                    builder.hours(kind);
                },
                Err(msg) => {
                    return Err(msg);
                },
            }
        }
        if let Some(weekdays) = message.weekdays {
            match to_specifier_kind(weekdays) {
                Ok(kind) => {
                    builder.weekdays(kind);
                },
                Err(msg) => {
                    return Err(msg);
                },
            }
        }
        if let Some(monthdays) = message.monthdays {
            match to_specifier_kind(monthdays) {
                Ok(kind) => {
                    builder.monthdays(kind);
                },
                Err(msg) => {
                    return Err(msg);
                },
            }
        }
        if let Some(weeks) = message.weeks {
            match to_specifier_kind(weeks) {
                Ok(kind) => {
                    builder.weeks(kind);
                },
                Err(msg) => {
                    return Err(msg);
                },
            }
        }
        if let Some(months) = message.months {
            match to_specifier_kind(months) {
                Ok(kind) => {
                    builder.months(kind);
                },
                Err(msg) => {
                    return Err(msg);
                },
            }
        }
    }
    match builder.build() {
        Ok(interval) => Ok(interval),
        Err(_) => Err(String::from_str("Error building interval")),
    }
}

} // verus!
