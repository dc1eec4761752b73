//! One row that summarizes all the files that a query accepted.
use crate::field::Field;
use crate::function::Function;
use crate::query::ColumnExpr;
use crate::text::{
    chars_of, decimal, decimal_string, parse_i64, parse_signed, parse_u64, parse_unsigned,
    signed_decimal, signed_decimal_string,
};
use vstd::prelude::*;

verus! {

/// The values of an accepted file that the summaries are made of: each
/// field that a column reads, with its text.
#[derive(Clone, Debug, PartialEq, Eq)]
pub struct RawRow {
    pub values: Vec<(Field, String)>,
}

impl View for RawRow {
    type V = Seq<(Field, Seq<char>)>;

    open spec fn view(&self) -> Seq<(Field, Seq<char>)> {
        Seq::new(self.values@.len(), |i: int| (self.values@[i].0, self.values@[i].1@))
    }
}

/// The rows as mathematical objects.
pub open spec fn raw_view(rows: Seq<RawRow>) -> Seq<Seq<(Field, Seq<char>)>> {
    Seq::new(rows.len(), |i: int| rows[i]@)
}

/// The text that the first pair with field `f` holds.
pub open spec fn lookup(values: Seq<(Field, Seq<char>)>, f: Field) -> Option<Seq<char>>
    decreases values.len(),
{
    if values.len() == 0 {
        None
    } else if values[0].0 == f {
        Some(values[0].1)
    } else {
        lookup(values.drop_first(), f)
    }
}

/// The text of a row for the field of a summary; none where the summary
/// names no field.
pub open spec fn cell(row: Seq<(Field, Seq<char>)>, f: Option<Field>) -> Option<Seq<char>> {
    match f {
        Some(field) => lookup(row, field),
        None => None,
    }
}

/// The unsigned number that a row contributes; 0 where it holds none.
pub open spec fn amount(row: Seq<(Field, Seq<char>)>, f: Option<Field>) -> nat {
    match cell(row, f) {
        Some(s) => match parse_unsigned(s, u64::MAX as nat) {
            Some(n) => n,
            None => 0,
        },
        None => 0,
    }
}

/// The sum of the numbers of all rows.
pub open spec fn sum_of(rows: Seq<Seq<(Field, Seq<char>)>>, f: Option<Field>) -> nat
    decreases rows.len(),
{
    if rows.len() == 0 {
        0
    } else {
        sum_of(rows.drop_last(), f) + amount(rows.last(), f)
    }
}

/// The largest number of all rows; 0 where there is none.
pub open spec fn max_of(rows: Seq<Seq<(Field, Seq<char>)>>, f: Option<Field>) -> nat
    decreases rows.len(),
{
    if rows.len() == 0 {
        0
    } else {
        let m = max_of(rows.drop_last(), f);
        let a = amount(rows.last(), f);
        if a > m {
            a
        } else {
            m
        }
    }
}

/// The smallest signed number of all rows, with -1 standing for "none so
/// far": the first number replaces it, and so does any number after a -1.
pub open spec fn min_of(rows: Seq<Seq<(Field, Seq<char>)>>, f: Option<Field>) -> int
    decreases rows.len(),
{
    if rows.len() == 0 {
        -1
    } else {
        let m = min_of(rows.drop_last(), f);
        match cell(rows.last(), f) {
            Some(s) => match parse_signed(s) {
                Some(v) => if v < m || m == -1 {
                    v
                } else {
                    m
                },
                None => m,
            },
            None => m,
        }
    }
}

/// What a column shows in the row of summaries. `None` stands for the
/// average of no rows, which does not exist. A column without a summary shows
/// its literal value, or nothing.
pub open spec fn aggregate_text(c: ColumnExpr, rows: Seq<Seq<(Field, Seq<char>)>>) -> Option<Seq<char>> {
    match c {
        ColumnExpr::Value(v) => Some(v@),
        ColumnExpr::Field(_) => Some(Seq::empty()),
        ColumnExpr::Function(f, arg) => match f {
            Function::Min => Some(signed_decimal(min_of(rows, arg.inner_field()))),
            Function::Max => Some(decimal(max_of(rows, arg.inner_field()))),
            Function::Sum => Some(decimal(sum_of(rows, arg.inner_field()))),
            Function::Avg => if rows.len() == 0 {
                None
            } else {
                Some(decimal(sum_of(rows, arg.inner_field()) / rows.len()))
            },
            Function::Count => Some(decimal(rows.len())),
            _ => Some(Seq::empty()),
        },
    }
}

impl RawRow {
    /// The text of the row for a field.
    pub fn get(&self, f: Field) -> (r: Option<&String>)
        ensures
            r.is_some() == lookup(self@, f).is_some(),
            r.is_some() ==> r.unwrap()@ == lookup(self@, f).unwrap(),
    {
        let mut i: usize = 0;
        assert(self@.skip(0) =~= self@);
        while i < self.values.len()
            invariant
                i <= self.values.len(),
                lookup(self@, f) == lookup(self@.skip(i as int), f),
            decreases self.values.len() - i,
        {
            proof {
                let rest = self@.skip(i as int);
                assert(rest[0] == self@[i as int]);
                assert(rest.drop_first() =~= self@.skip(i + 1));
            }
            if self.values[i].0 == f {
                return Some(&self.values[i].1);
            }
            i += 1;
        }
        None
    }

    fn cell_of(&self, f: Option<Field>) -> (r: Option<&String>)
        ensures
            r.is_some() == cell(self@, f).is_some(),
            r.is_some() ==> r.unwrap()@ == cell(self@, f).unwrap(),
    {
        match f {
            Some(field) => self.get(field),
            None => None,
        }
    }

    fn amount_of(&self, f: Option<Field>) -> (n: u64)
        ensures
            n as nat == amount(self@, f),
    {
        match self.cell_of(f) {
            Some(s) => match parse_u64(&chars_of(s.as_str()), u64::MAX) {
                Some(n) => n,
                None => 0,
            },
            None => 0,
        }
    }
}

/// The sum of what the rows hold for a field.
pub fn sum(rows: &Vec<RawRow>, f: Option<Field>) -> (total: u128)
    ensures
        total as nat == sum_of(raw_view(rows@), f),
{
    let mut total: u128 = 0;
    let mut i: usize = 0;
    while i < rows.len()
        invariant
            i <= rows.len(),
            total as nat == sum_of(raw_view(rows@).take(i as int), f),
            total <= i * 0xffff_ffff_ffff_ffff,
        decreases rows.len() - i,
    {
        let a = rows[i].amount_of(f);
        proof {
            assert(raw_view(rows@).take(i + 1).drop_last() =~= raw_view(rows@).take(i as int));
            assert(raw_view(rows@).take(i + 1).last() == rows@[i as int]@);
            assert((i + 1) * 0xffff_ffff_ffff_ffff <= 0xffff_ffff_ffff_ffff_ffff_ffff_ffff_ffff)
                by (nonlinear_arith)
                requires
                    i + 1 <= 0xffff_ffff_ffff_ffff,
            ;
            assert((i + 1) * 0xffff_ffff_ffff_ffff == i * 0xffff_ffff_ffff_ffff
                + 0xffff_ffff_ffff_ffff) by (nonlinear_arith);
        }
        total = total + a as u128;
        i += 1;
    }
    assert(raw_view(rows@).take(rows.len() as int) =~= raw_view(rows@));
    total
}

/// The largest number that the rows hold for a field.
pub fn max(rows: &Vec<RawRow>, f: Option<Field>) -> (m: u64)
    ensures
        m as nat == max_of(raw_view(rows@), f),
{
    let mut m: u64 = 0;
    let mut i: usize = 0;
    while i < rows.len()
        invariant
            i <= rows.len(),
            m as nat == max_of(raw_view(rows@).take(i as int), f),
        decreases rows.len() - i,
    {
        let a = rows[i].amount_of(f);
        proof {
            assert(raw_view(rows@).take(i + 1).drop_last() =~= raw_view(rows@).take(i as int));
            assert(raw_view(rows@).take(i + 1).last() == rows@[i as int]@);
        }
        if a > m {
            m = a;
        }
        i += 1;
    }
    assert(raw_view(rows@).take(rows.len() as int) =~= raw_view(rows@));
    m
}

/// The smallest number that the rows hold for a field, -1 for none.
pub fn min(rows: &Vec<RawRow>, f: Option<Field>) -> (m: i64)
    ensures
        m as int == min_of(raw_view(rows@), f),
{
    let mut m: i64 = -1;
    let mut i: usize = 0;
    while i < rows.len()
        invariant
            i <= rows.len(),
            m as int == min_of(raw_view(rows@).take(i as int), f),
        decreases rows.len() - i,
    {
        proof {
            assert(raw_view(rows@).take(i + 1).drop_last() =~= raw_view(rows@).take(i as int));
            assert(raw_view(rows@).take(i + 1).last() == rows@[i as int]@);
        }
        if let Some(s) = rows[i].cell_of(f) {
            if let Some(v) = parse_i64(&chars_of(s.as_str())) {
                if v < m || m == -1 {
                    m = v;
                }
            }
        }
        i += 1;
    }
    assert(raw_view(rows@).take(rows.len() as int) =~= raw_view(rows@));
    m
}

/// What a column shows in the row of summaries; `None` for the average of
/// no rows.
pub fn get_aggregate_function_value(column_expr: &ColumnExpr, rows: &Vec<RawRow>) -> (r: Option<
    String,
>)
    ensures
        r.is_some() == aggregate_text(*column_expr, raw_view(rows@)).is_some(),
        r.is_some() ==> r.unwrap()@ == aggregate_text(*column_expr, raw_view(rows@)).unwrap(),
{
    match column_expr {
        ColumnExpr::Value(v) => Some(v.clone()),
        ColumnExpr::Field(_) => Some(String::new()),
        ColumnExpr::Function(f, arg) => {
            let field = arg.get_inner_field();
            match f {
                Function::Min => Some(signed_decimal_string(min(rows, field))),
                Function::Max => Some(decimal_string(max(rows, field) as u128)),
                Function::Sum => Some(decimal_string(sum(rows, field))),
                Function::Avg => if rows.len() == 0 {
                    None
                } else {
                    Some(decimal_string(sum(rows, field) / (rows.len() as u128)))
                },
                Function::Count => Some(decimal_string(rows.len() as u128)),
                _ => Some(String::new()),
            }
        },
    }
}

} // verus!
