//! Writing a row in the format that a query asks for.
use crate::query::OutputFormat;
use crate::text::{chars_eq, chars_of, push_str, string_of, texts};
use vstd::prelude::*;

verus! {

/// The record that the `csv` crate writes for these fields, with its line
/// end.
pub uninterp spec fn csv_record(fields: Seq<Seq<char>>) -> Seq<char>;

/// The JSON string that `serde_json` writes for `s`, quotes included.
pub uninterp spec fn json_string(s: Seq<char>) -> Seq<char>;

/// `csv::Writer::write_record` on a writer of its own, made by
/// `csv::Writer::from_writer` over an empty buffer: the text that the buffer
/// holds afterwards, which is one record.
#[verifier::external_body]
fn write_csv_record(fields: &Vec<String>) -> (s: String)
    ensures
        s@ == csv_record(texts(fields@)),
{
    let mut writer = csv::Writer::from_writer(Vec::new());
    let _ = writer.write_record(fields);
    match writer.into_inner() {
        Ok(bytes) => String::from_utf8_lossy(&bytes).into_owned(),
        Err(_) => String::new(),
    }
}

/// `serde_json::to_string` on a string: the string in quotes, with the
/// characters escaped that JSON does not take as they are.
#[verifier::external_body]
fn to_json_string(s: &str) -> (r: String)
    ensures
        r@ == json_string(s@),
{
    match serde_json::to_string(s) {
        Ok(r) => r,
        Err(_) => String::new(),
    }
}

/// Each value with `end` behind it.
pub open spec fn ended(values: Seq<Seq<char>>, end: char) -> Seq<char>
    decreases values.len(),
{
    if values.len() == 0 {
        Seq::empty()
    } else {
        ended(values.drop_last(), end) + values.last() + seq![end]
    }
}

/// The values with `sep` between them.
pub open spec fn joined(values: Seq<Seq<char>>, sep: char) -> Seq<char>
    decreases values.len(),
{
    if values.len() == 0 {
        Seq::empty()
    } else if values.len() == 1 {
        values[0]
    } else {
        joined(values.drop_last(), sep) + seq![sep] + values.last()
    }
}

/// Whether a column behind column `i` has the key of column `i`.
pub open spec fn comes_again(keys: Seq<Seq<char>>, i: int) -> bool {
    exists|j: int| i < j < keys.len() && keys[j] == keys[i]
}

/// The members of a JSON object for the first `n` columns: `"key":"value"`
/// for each column whose key no later column has. Of columns with one key
/// the last counts, as in a map that is filled column by column.
pub open spec fn members(keys: Seq<Seq<char>>, values: Seq<Seq<char>>, n: int) -> Seq<Seq<char>>
    decreases n,
{
    if n <= 0 || n > keys.len() || n > values.len() {
        Seq::empty()
    } else if comes_again(keys, n - 1) {
        members(keys, values, n - 1)
    } else {
        members(keys, values, n - 1).push(
            json_string(keys[n - 1]) + seq![':'] + json_string(values[n - 1]),
        )
    }
}

/// The JSON object of a row.
pub open spec fn json_object(keys: Seq<Seq<char>>, values: Seq<Seq<char>>) -> Seq<char> {
    seq!['{'] + joined(members(keys, values, keys.len() as int), ',') + seq!['}']
}

/// A row in a format: in `Lines` each value on a line of its own, in
/// `List` each value with a NUL behind it, in `Tabs` the values on one line
/// with tabs between them, in `Csv` one record, in `Json` one object with the
/// keys of the columns.
pub open spec fn row_text(format: OutputFormat, keys: Seq<Seq<char>>, values: Seq<Seq<char>>)
    -> Seq<char> {
    match format {
        OutputFormat::Lines => ended(values, '\n'),
        OutputFormat::List => ended(values, '\0'),
        OutputFormat::Tabs => joined(values, '\t') + seq!['\n'],
        OutputFormat::Csv => csv_record(values),
        OutputFormat::Json => json_object(keys, values),
    }
}

/// What comes before the first row.
pub open spec fn start_text(format: OutputFormat) -> Seq<char> {
    if format == OutputFormat::Json {
        seq!['[']
    } else {
        Seq::empty()
    }
}

/// What comes after the last row.
pub open spec fn end_text(format: OutputFormat) -> Seq<char> {
    if format == OutputFormat::Json {
        seq![']']
    } else {
        Seq::empty()
    }
}

/// What stands between two rows: a comma in JSON, nothing elsewhere.
pub open spec fn separator(format: OutputFormat) -> Seq<char> {
    if format == OutputFormat::Json {
        seq![',']
    } else {
        Seq::empty()
    }
}

/// The rows one after another, with the separator of the format between
/// them.
pub open spec fn rows_text(format: OutputFormat, rows: Seq<Seq<char>>) -> Seq<char>
    decreases rows.len(),
{
    if rows.len() == 0 {
        Seq::empty()
    } else if rows.len() == 1 {
        rows[0]
    } else {
        rows_text(format, rows.drop_last()) + separator(format) + rows.last()
    }
}

fn write_ended(values: &Vec<String>, end: char) -> (s: String)
    ensures
        s@ == ended(texts(values@), end),
{
    let mut out: Vec<char> = Vec::new();
    let mut i: usize = 0;
    while i < values.len()
        invariant
            i <= values.len(),
            out@ == ended(texts(values@).take(i as int), end),
        decreases values.len() - i,
    {
        proof {
            let next = texts(values@).take(i + 1);
            assert(next.drop_last() =~= texts(values@).take(i as int));
            assert(next.last() == values@[i as int]@);
        }
        push_str(&mut out, values[i].as_str());
        out.push(end);
        i += 1;
    }
    assert(texts(values@).take(values.len() as int) =~= texts(values@));
    string_of(&out)
}

fn push_joined(out: &mut Vec<char>, values: &Vec<String>, sep: char)
    ensures
        final(out)@ == old(out)@ + joined(texts(values@), sep),
{
    let mut i: usize = 0;
    assert(out@ =~= old(out)@ + joined(texts(values@).take(0), sep));
    while i < values.len()
        invariant
            i <= values.len(),
            out@ == old(out)@ + joined(texts(values@).take(i as int), sep),
        decreases values.len() - i,
    {
        proof {
            let next = texts(values@).take(i + 1);
            assert(next.drop_last() =~= texts(values@).take(i as int));
            assert(next.last() == values@[i as int]@);
            if i == 0 {
                assert(next[0] == values@[0]@);
            }
        }
        let ghost before = out@;
        if i > 0 {
            out.push(sep);
        }
        push_str(out, values[i].as_str());
        i += 1;
        proof {
            let next = texts(values@).take(i as int);
            if i == 1 {
                assert(out@ =~= old(out)@ + joined(next, sep));
            } else {
                assert(out@ =~= before + seq![sep] + values@[i - 1]@);
                assert(out@ =~= old(out)@ + joined(next, sep));
            }
        }
    }
    assert(texts(values@).take(values.len() as int) =~= texts(values@));
}

fn has_later_twin(keys: &Vec<String>, i: usize) -> (b: bool)
    requires
        i < keys.len(),
    ensures
        b == comes_again(texts(keys@), i as int),
{
    let k = chars_of(keys[i].as_str());
    let mut j: usize = i + 1;
    while j < keys.len()
        invariant
            i < j <= keys.len(),
            k@ == keys@[i as int]@,
            forall|m: int| i < m < j ==> texts(keys@)[m] != texts(keys@)[i as int],
        decreases keys.len() - j,
    {
        if chars_eq(&chars_of(keys[j].as_str()), &k) {
            assert(texts(keys@)[j as int] == texts(keys@)[i as int]);
            return true;
        }
        j += 1;
    }
    false
}

fn write_json_object(keys: &Vec<String>, values: &Vec<String>) -> (s: String)
    requires
        keys.len() == values.len(),
    ensures
        s@ == json_object(texts(keys@), texts(values@)),
{
    let mut parts: Vec<String> = Vec::new();
    let mut i: usize = 0;
    while i < keys.len()
        invariant
            i <= keys.len(),
            keys.len() == values.len(),
            texts(parts@) == members(texts(keys@), texts(values@), i as int),
        decreases keys.len() - i,
    {
        if !has_later_twin(keys, i) {
            let mut part: Vec<char> = Vec::new();
            push_str(&mut part, to_json_string(keys[i].as_str()).as_str());
            part.push(':');
            push_str(&mut part, to_json_string(values[i].as_str()).as_str());
            let ghost before = parts@;
            parts.push(string_of(&part));
            proof {
                assert(part@ =~= json_string(keys@[i as int]@) + seq![':'] + json_string(
                    values@[i as int]@,
                ));
                assert(texts(parts@) =~= texts(before).push(part@));
            }
        }
        i += 1;
    }
    let mut out: Vec<char> = Vec::new();
    out.push('{');
    push_joined(&mut out, &parts, ',');
    out.push('}');
    assert(out@ =~= json_object(texts(keys@), texts(values@)));
    string_of(&out)
}

/// Writes a row. `keys` holds the key of each column, `values` what the
/// column shows.
pub fn format_results_row(format: OutputFormat, keys: &Vec<String>, values: &Vec<String>) -> (s:
    String)
    requires
        keys.len() == values.len(),
    ensures
        s@ == row_text(format, texts(keys@), texts(values@)),
{
    match format {
        OutputFormat::Lines => write_ended(values, '\n'),
        OutputFormat::List => write_ended(values, '\0'),
        OutputFormat::Tabs => {
            let mut out: Vec<char> = Vec::new();
            push_joined(&mut out, values, '\t');
            out.push('\n');
            assert(out@ =~= joined(texts(values@), '\t') + seq!['\n']);
            string_of(&out)
        },
        OutputFormat::Csv => write_csv_record(values),
        OutputFormat::Json => write_json_object(keys, values),
    }
}

/// What is written before the first row.
pub fn results_start(format: OutputFormat) -> (s: String)
    ensures
        s@ == start_text(format),
{
    let mut out: Vec<char> = Vec::new();
    if format == OutputFormat::Json {
        out.push('[');
    }
    assert(out@ =~= start_text(format));
    string_of(&out)
}

/// What is written after the last row.
pub fn results_end(format: OutputFormat) -> (s: String)
    ensures
        s@ == end_text(format),
{
    let mut out: Vec<char> = Vec::new();
    if format == OutputFormat::Json {
        out.push(']');
    }
    assert(out@ =~= end_text(format));
    string_of(&out)
}

/// Writes rows one after another, with a comma between them in JSON.
pub fn join_rows(format: OutputFormat, rows: &Vec<String>) -> (s: String)
    ensures
        s@ == rows_text(format, texts(rows@)),
{
    let mut out: Vec<char> = Vec::new();
    let mut i: usize = 0;
    while i < rows.len()
        invariant
            i <= rows.len(),
            out@ == rows_text(format, texts(rows@).take(i as int)),
        decreases rows.len() - i,
    {
        proof {
            let next = texts(rows@).take(i + 1);
            assert(next.drop_last() =~= texts(rows@).take(i as int));
            assert(next.last() == rows@[i as int]@);
            if i == 0 {
                assert(next[0] == rows@[0]@);
            }
        }
        let ghost before = out@;
        if i > 0 && format == OutputFormat::Json {
            out.push(',');
        }
        push_str(&mut out, rows[i].as_str());
        i += 1;
        proof {
            let next = texts(rows@).take(i as int);
            if i == 1 {
                assert(out@ =~= rows_text(format, next));
            } else {
                assert(out@ =~= before + separator(format) + rows@[i - 1]@);
            }
        }
    }
    assert(texts(rows@).take(rows.len() as int) =~= texts(rows@));
    string_of(&out)
}

} // verus!
