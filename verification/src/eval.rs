//! Judging a candidate by the condition of a query.
use crate::datetime::DateTime;
use crate::entry::{Entry, Source};
use crate::field::Field;
use crate::pattern::{is_match, pattern_matches};
use crate::query::{Expr, LogicalOp, Op};
use crate::text::{chars_of, parse_u64, parse_unsigned};
use crate::value::{
    field_value, parse_filesize, parse_size, read_field, str_to_bool, truthy, Answer, FieldValue,
    Value,
};
use vstd::prelude::*;

verus! {

/// A comparison of a text with the value of a query. `Eq` and `Ne` go by
/// the regular expression where there is one and by equality where there is
/// none; `Rx` and `Like` need the regular expression; `Eeq` and `Ene` go by
/// equality alone.
pub open spec fn text_test(op: Op, val: Seq<char>, regex: Option<Seq<char>>, actual: Seq<char>)
    -> bool {
    match op {
        Op::Eq => match regex {
            Some(p) => pattern_matches(p, actual),
            None => val == actual,
        },
        Op::Ne => match regex {
            Some(p) => !pattern_matches(p, actual),
            None => val != actual,
        },
        Op::Rx | Op::Like => match regex {
            Some(p) => pattern_matches(p, actual),
            None => false,
        },
        Op::Eeq => val == actual,
        Op::Ene => val != actual,
        _ => false,
    }
}

/// A comparison of a number of the file with the number of the query.
pub open spec fn number_test(op: Op, actual: nat, expected: nat) -> bool {
    match op {
        Op::Eq | Op::Eeq => actual == expected,
        Op::Ne | Op::Ene => actual != expected,
        Op::Gt => actual > expected,
        Op::Gte => actual >= expected,
        Op::Lt => actual < expected,
        Op::Lte => actual <= expected,
        _ => false,
    }
}

/// A comparison of a flag with the value of a query, read as true or
/// false.
pub open spec fn flag_test(op: Op, val: Seq<char>, actual: bool) -> bool {
    match op {
        Op::Eq | Op::Eeq => actual == truthy(val),
        Op::Ne | Op::Ene => actual != truthy(val),
        _ => false,
    }
}

/// A comparison of a moment with the range that the value of a query
/// stands for.
pub open spec fn time_test(op: Op, from: DateTime, to: DateTime, t: DateTime) -> bool {
    match op {
        Op::Eeq => t == from,
        Op::Ene => t != from,
        Op::Eq => from.at_most(t) && t.at_most(to),
        Op::Ne => t.before(from) || to.before(t),
        Op::Gt => to.before(t),
        Op::Gte => from.at_most(t),
        Op::Lt => t.before(from),
        Op::Lte => t.at_most(to),
        _ => false,
    }
}

/// The number that the value of a query stands for when it is compared
/// with `field`: a size may end in a unit, an owner's number fits 32 bits.
pub open spec fn expected_number(field: Field, val: Seq<char>) -> Option<nat> {
    match field {
        Field::Size | Field::FormattedSize => parse_size(val),
        Field::Uid | Field::Gid => parse_unsigned(val, u32::MAX as nat),
        _ => parse_unsigned(val, u64::MAX as nat),
    }
}

/// Whether a comparison holds of a value of the file.
pub open spec fn judge(
    field: Field,
    op: Op,
    val: Seq<char>,
    regex: Option<Seq<char>>,
    range: Option<(DateTime, DateTime)>,
    actual: Value,
) -> bool {
    match actual {
        Value::Text(s) => text_test(op, val, regex, s),
        Value::Number(n) => match expected_number(field, val) {
            Some(expected) => number_test(op, n, expected),
            None => false,
        },
        Value::Flag(b) => flag_test(op, val, b),
        Value::Time(t) => match range {
            Some((from, to)) => time_test(op, from, to, t),
            None => false,
        },
    }
}

/// Whether a comparison holds of a candidate. It does not where the
/// candidate has no value for the field.
pub open spec fn leaf_holds(
    field: Field,
    op: Op,
    val: Seq<char>,
    regex: Option<Seq<char>>,
    range: Option<(DateTime, DateTime)>,
    e: Entry,
) -> Answer<bool> {
    match field_value(field, e) {
        Answer::Needs(s) => Answer::Needs(s),
        Answer::Ready(None) => Answer::Ready(false),
        Answer::Ready(Some(v)) => Answer::Ready(judge(field, op, val, regex, range, v)),
    }
}

/// The regular expression of a comparison, as a sequence of characters.
pub open spec fn regex_view(regex: Option<String>) -> Option<Seq<char>> {
    match regex {
        Some(r) => Some(r@),
        None => None,
    }
}

/// Whether a condition holds of a candidate, as far as it can be told from
/// what was fetched. The right side of `and` is looked at only where the left
/// side holds, that of `or` only where it does not.
pub open spec fn holds(expr: Expr, e: Entry) -> Answer<bool>
    decreases expr,
{
    match expr {
        Expr::Leaf { field, op, val, regex, range } => leaf_holds(
            field,
            op,
            val@,
            regex_view(regex),
            range,
            e,
        ),
        Expr::Node { logical_op, left, right } => match holds(*left, e) {
            Answer::Needs(s) => Answer::Needs(s),
            Answer::Ready(l) => match logical_op {
                LogicalOp::And => if l {
                    holds(*right, e)
                } else {
                    Answer::Ready(false)
                },
                LogicalOp::Or => if l {
                    Answer::Ready(true)
                } else {
                    holds(*right, e)
                },
            },
        },
    }
}

pub fn check_text(op: Op, val: &str, regex: &Option<String>, actual: &str) -> (b: bool)
    ensures
        b == text_test(op, val@, regex_view(*regex), actual@),
{
    match op {
        Op::Eq => match regex {
            Some(p) => is_match(p.as_str(), actual),
            None => same_text(val, actual),
        },
        Op::Ne => match regex {
            Some(p) => !is_match(p.as_str(), actual),
            None => !same_text(val, actual),
        },
        Op::Rx | Op::Like => match regex {
            Some(p) => is_match(p.as_str(), actual),
            None => false,
        },
        Op::Eeq => same_text(val, actual),
        Op::Ene => !same_text(val, actual),
        _ => false,
    }
}

pub fn same_text(a: &str, b: &str) -> (r: bool)
    ensures
        r == (a@ == b@),
{
    crate::text::chars_eq(&chars_of(a), &chars_of(b))
}

pub fn check_number(op: Op, actual: u64, expected: u64) -> (b: bool)
    ensures
        b == number_test(op, actual as nat, expected as nat),
{
    match op {
        Op::Eq | Op::Eeq => actual == expected,
        Op::Ne | Op::Ene => actual != expected,
        Op::Gt => actual > expected,
        Op::Gte => actual >= expected,
        Op::Lt => actual < expected,
        Op::Lte => actual <= expected,
        _ => false,
    }
}

pub fn check_flag(op: Op, val: &str, actual: bool) -> (b: bool)
    ensures
        b == flag_test(op, val@, actual),
{
    match op {
        Op::Eq | Op::Eeq => actual == str_to_bool(val),
        Op::Ne | Op::Ene => actual != str_to_bool(val),
        _ => false,
    }
}

pub fn check_time(op: Op, from: &DateTime, to: &DateTime, t: &DateTime) -> (b: bool)
    ensures
        b == time_test(op, *from, *to, *t),
{
    match op {
        Op::Eeq => same_moment(t, from),
        Op::Ene => !same_moment(t, from),
        Op::Eq => from.is_at_most(t) && t.is_at_most(to),
        Op::Ne => t.is_before(from) || to.is_before(t),
        Op::Gt => to.is_before(t),
        Op::Gte => from.is_at_most(t),
        Op::Lt => t.is_before(from),
        Op::Lte => t.is_at_most(to),
        _ => false,
    }
}

pub fn same_moment(a: &DateTime, b: &DateTime) -> (r: bool)
    ensures
        r == (*a == *b),
{
    a.year == b.year && a.month == b.month && a.day == b.day && a.hour == b.hour && a.minute
        == b.minute && a.second == b.second
}

/// Reads the value of a query as the number that `field` is compared with.
pub fn read_expected_number(field: Field, val: &str) -> (r: Option<u64>)
    ensures
        r.is_some() == expected_number(field, val@).is_some(),
        r.is_some() ==> r.unwrap() as nat == expected_number(field, val@).unwrap(),
{
    match field {
        Field::Size | Field::FormattedSize => parse_filesize(val),
        Field::Uid | Field::Gid => parse_u64(&chars_of(val), 0xffff_ffff),
        _ => parse_u64(&chars_of(val), u64::MAX),
    }
}

/// Whether a comparison holds of a value of the file.
pub fn check_value(
    field: Field,
    op: Op,
    val: &str,
    regex: &Option<String>,
    range: &Option<(DateTime, DateTime)>,
    actual: &FieldValue,
) -> (b: bool)
    ensures
        b == judge(field, op, val@, regex_view(*regex), *range, actual@),
{
    match actual {
        FieldValue::Text(s) => check_text(op, val, regex, s.as_str()),
        FieldValue::Number(n) => match read_expected_number(field, val) {
            Some(expected) => check_number(op, *n, expected),
            None => false,
        },
        FieldValue::Flag(b) => check_flag(op, val, *b),
        FieldValue::Time(t) => match range {
            Some((from, to)) => check_time(op, from, to, t),
            None => false,
        },
    }
}

/// Judges a candidate by a condition, as far as what was fetched allows:
/// `Needs` names the source that is missing for the next comparison.
pub fn conforms(expr: &Expr, entry: &Entry) -> (r: Answer<bool>)
    ensures
        r == holds(*expr, *entry),
    decreases *expr,
{
    match expr {
        Expr::Leaf { field, op, val, regex, range } => {
            let value = read_field(*field, entry);
            match value {
                Answer::Needs(s) => Answer::Needs(s),
                Answer::Ready(None) => Answer::Ready(false),
                Answer::Ready(Some(v)) => Answer::Ready(
                    check_value(*field, *op, val.as_str(), regex, range, &v),
                ),
            }
        },
        Expr::Node { logical_op, left, right } => match conforms(left, entry) {
            Answer::Needs(s) => Answer::Needs(s),
            Answer::Ready(l) => match logical_op {
                LogicalOp::And => if l {
                    conforms(right, entry)
                } else {
                    Answer::Ready(false)
                },
                LogicalOp::Or => if l {
                    Answer::Ready(true)
                } else {
                    conforms(right, entry)
                },
            },
        },
    }
}

/// No comparison with a field that exists only for a file of the file
/// system holds of a member of an archive: not with the owner or its
/// number, not with the times of creation and of last access, not with the
/// extended attributes, and not with what is read from the content of a
/// file, whatever the operator and the value.
pub proof fn lemma_member_fails_real_fields(expr: Expr, e: Entry)
    requires
        e.is_virtual(),
        expr matches Expr::Leaf { field, .. } && field.needs_real_file(),
    ensures
        holds(expr, e) == Answer::Ready(false),
{
}

/// A verdict stands when more is fetched: what was judged without a source
/// does not depend on it.
pub proof fn lemma_verdict_is_stable(expr: Expr, earlier: Entry, later: Entry)
    requires
        later.filled_from(earlier),
        holds(expr, earlier) is Ready,
    ensures
        holds(expr, later) == holds(expr, earlier),
    decreases expr,
{
    match expr {
        Expr::Leaf { field, op, val, regex, range } => {
            crate::value::lemma_value_is_stable(field, earlier, later);
        },
        Expr::Node { logical_op, left, right } => {
            lemma_verdict_is_stable(*left, earlier, later);
            if holds(*left, earlier) is Ready {
                let l = holds(*left, earlier)->Ready_0;
                if (logical_op == LogicalOp::And && l) || (logical_op == LogicalOp::Or && !l) {
                    lemma_verdict_is_stable(*right, earlier, later);
                }
            }
        },
    }
}

/// A verdict is held up only by a source that nobody has tried to fetch.
pub proof fn lemma_verdict_needs_unknown(expr: Expr, e: Entry, source: Source)
    requires
        holds(expr, e) == Answer::<bool>::Needs(source),
    ensures
        !e.has(source),
    decreases expr,
{
    match expr {
        Expr::Leaf { field, op, val, regex, range } => {
            crate::value::lemma_needs_unknown(field, e, source);
        },
        Expr::Node { logical_op, left, right } => {
            if holds(*left, e) is Needs {
                lemma_verdict_needs_unknown(*left, e, source);
            } else {
                lemma_verdict_needs_unknown(*right, e, source);
            }
        },
    }
}

} // verus!
