//! The text that a column shows for a candidate.
use crate::datetime::{lemma_text_reads_back, literal_range, parse_datetime, DateTime};
use crate::entry::Entry;
use crate::field::Field;
use crate::function::Function;
use crate::query::ColumnExpr;
use crate::text::{decimal, decimal_string, push_str, string_of};
use crate::value::{
    ends_with_one_of, extension_field_value, extensions_of, field_value, is_extension_field,
    read_field, reads_extension, Answer, FieldValue, Value,
};
use vstd::prelude::*;

verus! {

/// The size `n` as the `humansize` crate writes it with binary units, such
/// as `1.5 KiB`.
pub uninterp spec fn human_size(n: u64) -> Seq<char>;

/// `s` in lower case, as `str::to_lowercase` gives it.
pub uninterp spec fn lowercase(s: Seq<char>) -> Seq<char>;

/// `s` in upper case, as `str::to_uppercase` gives it.
pub uninterp spec fn uppercase(s: Seq<char>) -> Seq<char>;

/// `humansize::FileSize::file_size` with the crate's `BINARY` options: the
/// size in the largest unit of 1024 that leaves at least 1, with two
/// decimals where the number is not whole.
#[verifier::external_body]
fn format_size(size: u64) -> (s: String)
    ensures
        s@ == human_size(size),
{
    match humansize::FileSize::file_size(&size, humansize::file_size_opts::BINARY) {
        Ok(s) => s,
        Err(e) => e,
    }
}

/// `str::to_lowercase`.
#[verifier::external_body]
fn to_lowercase(s: &str) -> (r: String)
    ensures
        r@ == lowercase(s@),
{
    s.to_lowercase()
}

/// `str::to_uppercase`.
#[verifier::external_body]
fn to_uppercase(s: &str) -> (r: String)
    ensures
        r@ == uppercase(s@),
{
    s.to_uppercase()
}

/// The mathematical form of an answer that is a text.
pub open spec fn text_view(a: Answer<String>) -> Answer<Seq<char>> {
    match a {
        Answer::Ready(s) => Answer::Ready(s@),
        Answer::Needs(s) => Answer::Needs(s),
    }
}

pub open spec fn flag_text(b: bool) -> Seq<char> {
    if b {
        "true"@
    } else {
        "false"@
    }
}

/// How the value of a field is shown.
pub open spec fn render(field: Field, v: Value) -> Seq<char> {
    match v {
        Value::Text(s) => s,
        Value::Number(n) => if field == Field::FormattedSize {
            human_size(n as u64)
        } else {
            decimal(n)
        },
        Value::Flag(b) => flag_text(b),
        Value::Time(t) => t.text(),
    }
}

/// How a member of an archive is named: the archive in brackets, then the
/// member.
pub open spec fn member_label(container: Seq<char>, member: Seq<char>) -> Seq<char> {
    seq!['['] + container + seq![']', ' '] + member
}

/// The text that a field shows for a candidate; empty where the candidate
/// has no value for it. A member of an archive is shown with the name or the
/// path of its archive before its own, and the kind of file that it shows is
/// that of the archive.
pub open spec fn field_text(field: Field, e: Entry) -> Answer<Seq<char>> {
    if e.file_info is Some && field == Field::Name {
        Answer::Ready(member_label(e.name@, e.file_info.unwrap().name@))
    } else if e.file_info is Some && field == Field::Path {
        Answer::Ready(member_label(e.path@, e.file_info.unwrap().name@))
    } else if e.file_info is Some && is_extension_field(field) {
        Answer::Ready(flag_text(ends_with_one_of(e.name@, extensions_of(field))))
    } else {
        match field_value(field, e) {
            Answer::Needs(s) => Answer::Needs(s),
            Answer::Ready(None) => Answer::Ready(Seq::empty()),
            Answer::Ready(Some(v)) => Answer::Ready(render(field, v)),
        }
    }
}

/// What a function makes of the text of its argument. A function that
/// summarizes all accepted files shows nothing for a single one.
pub open spec fn apply(f: Function, arg: Seq<char>) -> Seq<char> {
    match f {
        Function::Lower => lowercase(arg),
        Function::Upper => uppercase(arg),
        Function::Length => decimal(arg.len()),
        Function::Year => match literal_range(arg) {
            Some((from, to)) => decimal(from.year as nat),
            None => Seq::empty(),
        },
        Function::Month => match literal_range(arg) {
            Some((from, to)) => decimal(from.month as nat),
            None => Seq::empty(),
        },
        Function::Day => match literal_range(arg) {
            Some((from, to)) => decimal(from.day as nat),
            None => Seq::empty(),
        },
        _ => Seq::empty(),
    }
}

/// The text that a column shows for a candidate.
pub open spec fn column_text(c: ColumnExpr, e: Entry) -> Answer<Seq<char>>
    decreases c,
{
    match c {
        ColumnExpr::Value(v) => Answer::Ready(v@),
        ColumnExpr::Field(f) => field_text(f, e),
        ColumnExpr::Function(f, arg) => match column_text(*arg, e) {
            Answer::Needs(s) => Answer::Needs(s),
            Answer::Ready(a) => Answer::Ready(apply(f, a)),
        },
    }
}

pub fn flag_string(b: bool) -> (s: String)
    ensures
        s@ == flag_text(b),
{
    if b {
        String::from_str("true")
    } else {
        String::from_str("false")
    }
}

/// Shows the value of a field.
pub fn render_value(field: Field, v: &FieldValue) -> (s: String)
    ensures
        s@ == render(field, v@),
{
    match v {
        FieldValue::Text(s) => s.clone(),
        FieldValue::Number(n) => if field == Field::FormattedSize {
            format_size(*n)
        } else {
            decimal_string(*n as u128)
        },
        FieldValue::Flag(b) => flag_string(*b),
        FieldValue::Time(t) => t.format(),
    }
}

pub fn member_name(container: &str, member: &str) -> (s: String)
    ensures
        s@ == member_label(container@, member@),
{
    let mut v: Vec<char> = Vec::new();
    v.push('[');
    push_str(&mut v, container);
    v.push(']');
    v.push(' ');
    push_str(&mut v, member);
    assert(v@ =~= member_label(container@, member@));
    string_of(&v)
}

/// The text that a field shows for a candidate.
pub fn get_field_value(entry: &Entry, field: Field) -> (r: Answer<String>)
    ensures
        text_view(r) == field_text(field, *entry),
{
    if let Some(info) = &entry.file_info {
        if field == Field::Name {
            return Answer::Ready(member_name(entry.name.as_str(), info.name.as_str()));
        }
        if field == Field::Path {
            return Answer::Ready(member_name(entry.path.as_str(), info.name.as_str()));
        }
        if reads_extension(field) {
            return Answer::Ready(flag_string(extension_field_value(field, entry.name.as_str())));
        }
    }
    match read_field(field, entry) {
        Answer::Needs(s) => Answer::Needs(s),
        Answer::Ready(None) => Answer::Ready(String::new()),
        Answer::Ready(Some(v)) => Answer::Ready(render_value(field, &v)),
    }
}

/// What a function makes of the text of its argument.
pub fn get_function_value(f: Function, arg: &str) -> (r: String)
    ensures
        r@ == apply(f, arg@),
{
    match f {
        Function::Lower => to_lowercase(arg),
        Function::Upper => to_uppercase(arg),
        Function::Length => decimal_string(arg.unicode_len() as u128),
        Function::Year => match parse_datetime(arg) {
            Some((from, to)) => decimal_string(from.year as u128),
            None => String::new(),
        },
        Function::Month => match parse_datetime(arg) {
            Some((from, to)) => decimal_string(from.month as u128),
            None => String::new(),
        },
        Function::Day => match parse_datetime(arg) {
            Some((from, to)) => decimal_string(from.day as u128),
            None => String::new(),
        },
        _ => String::new(),
    }
}

/// The text that a column shows for a candidate.
pub fn get_column_expr_value(entry: &Entry, column_expr: &ColumnExpr) -> (r: Answer<String>)
    ensures
        text_view(r) == column_text(*column_expr, *entry),
    decreases *column_expr,
{
    match column_expr {
        ColumnExpr::Value(v) => Answer::Ready(v.clone()),
        ColumnExpr::Field(f) => get_field_value(entry, *f),
        ColumnExpr::Function(f, arg) => match get_column_expr_value(entry, arg) {
            Answer::Needs(s) => Answer::Needs(s),
            Answer::Ready(a) => Answer::Ready(get_function_value(*f, a.as_str())),
        },
    }
}

/// Writes a column as a query does: `lower(name)`.
pub fn column_label(c: &ColumnExpr) -> (s: String)
    ensures
        s@ == c.label(),
{
    let mut v: Vec<char> = Vec::new();
    push_label(&mut v, c);
    assert(v@ =~= c.label());
    string_of(&v)
}

fn push_label(out: &mut Vec<char>, c: &ColumnExpr)
    ensures
        final(out)@ == old(out)@ + c.label(),
    decreases *c,
{
    match c {
        ColumnExpr::Value(v) => {
            push_str(out, v.as_str());
        },
        ColumnExpr::Field(f) => {
            push_str(out, f.name());
        },
        ColumnExpr::Function(f, arg) => {
            push_str(out, f.name());
            out.push('(');
            push_label(out, arg);
            out.push(')');
            assert(out@ =~= old(out)@ + c.label());
        },
    }
}

/// The key of a column in a JSON row: its text in lower case.
pub fn column_key(c: &ColumnExpr) -> (s: String)
    ensures
        s@ == lowercase(c.label()),
{
    to_lowercase(column_label(c).as_str())
}

/// The year, the month and the day of a moment as it is shown are those of
/// the moment.
pub proof fn lemma_parts_of_a_shown_moment(t: DateTime)
    requires
        t.valid(),
    ensures
        apply(Function::Year, t.text()) == decimal(t.year as nat),
        apply(Function::Month, t.text()) == decimal(t.month as nat),
        apply(Function::Day, t.text()) == decimal(t.day as nat),
{
    lemma_text_reads_back(t);
}

/// A text that was shown keeps being shown when more is fetched.
pub proof fn lemma_column_is_stable(c: ColumnExpr, earlier: Entry, later: Entry)
    requires
        later.filled_from(earlier),
        column_text(c, earlier) is Ready,
    ensures
        column_text(c, later) == column_text(c, earlier),
    decreases c,
{
    match c {
        ColumnExpr::Value(v) => {},
        ColumnExpr::Field(f) => {
            if field_value(f, earlier) is Ready {
                crate::value::lemma_value_is_stable(f, earlier, later);
            }
        },
        ColumnExpr::Function(f, arg) => {
            lemma_column_is_stable(*arg, earlier, later);
        },
    }
}

/// A column is held up only by a source that nobody has tried to fetch.
pub proof fn lemma_column_needs_unknown(c: ColumnExpr, e: Entry, source: crate::entry::Source)
    requires
        column_text(c, e) == Answer::<Seq<char>>::Needs(source),
    ensures
        !e.has(source),
    decreases c,
{
    match c {
        ColumnExpr::Value(v) => {},
        ColumnExpr::Field(f) => {
            crate::value::lemma_needs_unknown(f, e, source);
        },
        ColumnExpr::Function(f, arg) => {
            lemma_column_needs_unknown(*arg, e, source);
        },
    }
}

} // verus!
