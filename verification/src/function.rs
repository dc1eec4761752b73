//! The functions that a column of a query can apply.
use crate::text::{chars_eq, chars_of, lower_ascii, to_lower_ascii};
use vstd::prelude::*;

verus! {

/// A function of a column: the first six work on the value of one file,
/// the last five on all the files that a query accepts.
#[derive(Clone, Copy, Debug, PartialEq, Eq, Structural, Hash)]
pub enum Function {
    Lower,
    Upper,
    Length,
    Year,
    Month,
    Day,
    Min,
    Max,
    Avg,
    Sum,
    Count,
}

impl Function {
    /// The name under which a query calls the function.
    pub open spec fn label(self) -> Seq<char> {
        match self {
            Function::Lower => "lower"@,
            Function::Upper => "upper"@,
            Function::Length => "length"@,
            Function::Year => "year"@,
            Function::Month => "month"@,
            Function::Day => "day"@,
            Function::Min => "min"@,
            Function::Max => "max"@,
            Function::Avg => "avg"@,
            Function::Sum => "sum"@,
            Function::Count => "count"@,
        }
    }

    /// The function that a word of a query names, whatever its case, if any.
    pub open spec fn named(word: Seq<char>) -> Option<Function> {
        let key = lower_ascii(word);
        if key == "lower"@ {
            Some(Function::Lower)
        } else if key == "upper"@ {
            Some(Function::Upper)
        } else if key == "length"@ {
            Some(Function::Length)
        } else if key == "year"@ {
            Some(Function::Year)
        } else if key == "month"@ {
            Some(Function::Month)
        } else if key == "day"@ {
            Some(Function::Day)
        } else if key == "min"@ {
            Some(Function::Min)
        } else if key == "max"@ {
            Some(Function::Max)
        } else if key == "avg"@ {
            Some(Function::Avg)
        } else if key == "sum"@ {
            Some(Function::Sum)
        } else if key == "count"@ {
            Some(Function::Count)
        } else {
            None
        }
    }

    /// Whether the function summarizes all accepted files in one value.
    pub open spec fn aggregate(self) -> bool {
        match self {
            Function::Min | Function::Max | Function::Avg | Function::Sum | Function::Count => true,
            _ => false,
        }
    }

    pub fn name(&self) -> (s: &'static str)
        ensures
            s@ == self.label(),
    {
        match self {
            Function::Lower => "lower",
            Function::Upper => "upper",
            Function::Length => "length",
            Function::Year => "year",
            Function::Month => "month",
            Function::Day => "day",
            Function::Min => "min",
            Function::Max => "max",
            Function::Avg => "avg",
            Function::Sum => "sum",
            Function::Count => "count",
        }
    }

    pub fn from_name(word: &str) -> (r: Option<Function>)
        ensures
            r == Function::named(word@),
    {
        let key = to_lower_ascii(&chars_of(word));
        if chars_eq(&key, &chars_of("lower")) {
            Some(Function::Lower)
        } else if chars_eq(&key, &chars_of("upper")) {
            Some(Function::Upper)
        } else if chars_eq(&key, &chars_of("length")) {
            Some(Function::Length)
        } else if chars_eq(&key, &chars_of("year")) {
            Some(Function::Year)
        } else if chars_eq(&key, &chars_of("month")) {
            Some(Function::Month)
        } else if chars_eq(&key, &chars_of("day")) {
            Some(Function::Day)
        } else if chars_eq(&key, &chars_of("min")) {
            Some(Function::Min)
        } else if chars_eq(&key, &chars_of("max")) {
            Some(Function::Max)
        } else if chars_eq(&key, &chars_of("avg")) {
            Some(Function::Avg)
        } else if chars_eq(&key, &chars_of("sum")) {
            Some(Function::Sum)
        } else if chars_eq(&key, &chars_of("count")) {
            Some(Function::Count)
        } else {
            None
        }
    }

    pub fn is_aggregate_function(&self) -> (b: bool)
        ensures
            b == self.aggregate(),
    {
        match self {
            Function::Min | Function::Max | Function::Avg | Function::Sum | Function::Count => true,
            _ => false,
        }
    }
}

} // verus!
