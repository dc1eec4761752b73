//! The parts of a parsed query.
use crate::datetime::DateTime;
use crate::field::{Field, FieldKind};
use crate::function::Function;
use crate::pattern::{has_wildcard, regex_valid, wildcard_regex};
use vstd::prelude::*;

verus! {

/// A comparison between a field and a value.
#[derive(Clone, Copy, Debug, PartialEq, Eq, Structural)]
pub enum Op {
    /// Equal; with a wildcard in the value, matched by it.
    Eq,
    /// Not equal; with a wildcard in the value, not matched by it.
    Ne,
    /// Equal, character by character.
    Eeq,
    /// Not equal, character by character.
    Ene,
    Gt,
    Gte,
    Lt,
    Lte,
    /// Matched by a regular expression.
    Rx,
    /// Matched by a regular expression, under the name `like`.
    Like,
}

#[derive(Clone, Copy, Debug, PartialEq, Eq, Structural)]
pub enum LogicalOp {
    And,
    Or,
}

/// How the rows are written.
#[derive(Clone, Copy, Debug, PartialEq, Eq, Structural)]
pub enum OutputFormat {
    /// The columns of a row with a tab between them, a line for each row.
    Tabs,
    /// Each value on a line of its own.
    Lines,
    /// Each value with a NUL character behind it.
    List,
    Csv,
    Json,
}

/// A column of the result: a literal value, a field, or a function of a
/// column.
#[derive(Debug, PartialEq, Eq)]
pub enum ColumnExpr {
    Value(String),
    Field(Field),
    Function(Function, Box<ColumnExpr>),
}

/// A condition on a file: a comparison, or two conditions joined by `and`
/// or `or`.
#[derive(Debug, PartialEq, Eq)]
pub enum Expr {
    Leaf {
        field: Field,
        op: Op,
        val: String,
        /// The regular expression that decides, where one does.
        regex: Option<String>,
        /// The range of moments that the value stands for, where the field
        /// is a time.
        range: Option<(DateTime, DateTime)>,
    },
    Node { logical_op: LogicalOp, left: Box<Expr>, right: Box<Expr> },
}

/// A directory to search, and how.
#[derive(Clone, Debug, PartialEq, Eq)]
pub struct Root {
    pub path: String,
    /// The first level that is searched; 0 and 1 both stand for the
    /// directory's own entries.
    pub min_depth: u32,
    /// The last level that is searched; 0 for no limit.
    pub max_depth: u32,
    /// Whether the members of archives are candidates too.
    pub archives: bool,
    /// Whether symbolic links are followed.
    pub symlinks: bool,
    /// Whether what `.gitignore` files exclude is left out.
    pub gitignore: bool,
}

/// A parsed query.
#[derive(Debug, PartialEq, Eq)]
pub struct Query {
    pub fields: Vec<ColumnExpr>,
    pub roots: Vec<Root>,
    pub expr: Option<Expr>,
    pub ordering_fields: Vec<ColumnExpr>,
    /// For each ordering field, whether smaller values come first.
    pub ordering_asc: Vec<bool>,
    /// The largest number of rows wanted; 0 for all.
    pub limit: u32,
    pub output_format: OutputFormat,
}

/// The regular expression that decides a comparison with `val`: the value
/// itself for `Rx` and `Like`, its translation where `Eq` or `Ne` meets a
/// wildcard, none otherwise.
pub open spec fn deciding_regex(op: Op, val: Seq<char>) -> Option<Seq<char>> {
    match op {
        Op::Rx | Op::Like => Some(val),
        Op::Eq | Op::Ne => if has_wildcard(val) {
            Some(wildcard_regex(val))
        } else {
            None
        },
        _ => None,
    }
}

impl ColumnExpr {
    /// Whether a function of the column summarizes all accepted files.
    pub open spec fn aggregate(self) -> bool
        decreases self,
    {
        match self {
            ColumnExpr::Function(f, arg) => f.aggregate() || arg.aggregate(),
            _ => false,
        }
    }

    /// The field that the column reads, through its functions; `None` for a
    /// literal value.
    pub open spec fn inner_field(self) -> Option<Field>
        decreases self,
    {
        match self {
            ColumnExpr::Field(f) => Some(f),
            ColumnExpr::Function(_, arg) => arg.inner_field(),
            ColumnExpr::Value(_) => None,
        }
    }

    /// The text of the column as a query writes it: `lower(name)`.
    pub open spec fn label(self) -> Seq<char>
        decreases self,
    {
        match self {
            ColumnExpr::Value(v) => v@,
            ColumnExpr::Field(f) => f.label(),
            ColumnExpr::Function(f, arg) => f.label() + seq!['('] + arg.label() + seq![')'],
        }
    }

    pub fn has_aggregate_function(&self) -> (b: bool)
        ensures
            b == self.aggregate(),
        decreases self,
    {
        match self {
            ColumnExpr::Function(f, arg) => f.is_aggregate_function()
                || arg.has_aggregate_function(),
            _ => false,
        }
    }

    pub fn get_inner_field(&self) -> (r: Option<Field>)
        ensures
            r == self.inner_field(),
        decreases self,
    {
        match self {
            ColumnExpr::Field(f) => Some(*f),
            ColumnExpr::Function(_, arg) => arg.get_inner_field(),
            ColumnExpr::Value(_) => None,
        }
    }
}

impl Expr {
    /// What the parser promises of a condition: the regular expression of
    /// each comparison is the one that its operator and value call for, and
    /// compiles; a comparison with a time has a range that does not end
    /// before it begins.
    pub open spec fn wf(self) -> bool
        decreases self,
    {
        match self {
            Expr::Leaf { field, op, val, regex, range } => {
                &&& match regex {
                    Some(r) => deciding_regex(op, val@) == Some(r@) && regex_valid(r@),
                    None => deciding_regex(op, val@) is None,
                }
                &&& (field.kind() == FieldKind::Time ==> range is Some)
                &&& match range {
                    Some((from, to)) => from.at_most(to),
                    None => true,
                }
            },
            Expr::Node { logical_op, left, right } => left.wf() && right.wf(),
        }
    }
}

/// Whether one of the columns summarizes all accepted files.
pub open spec fn any_aggregate(columns: Seq<ColumnExpr>) -> bool {
    exists|i: int| 0 <= i < columns.len() && (#[trigger] columns[i]).aggregate()
}

impl Query {
    /// There is an ascending flag for each ordering field, and the condition
    /// is as the parser makes it.
    pub open spec fn wf(self) -> bool {
        &&& self.ordering_fields.len() == self.ordering_asc.len()
        &&& match self.expr {
            Some(e) => e.wf(),
            None => true,
        }
    }

    pub open spec fn ordered(self) -> bool {
        self.ordering_fields.len() > 0
    }

    pub open spec fn aggregated(self) -> bool {
        any_aggregate(self.fields@)
    }

    /// Whether the rows are held back until the search is over.
    pub open spec fn buffered(self) -> bool {
        self.ordered() || self.aggregated()
    }

    pub fn has_ordering(&self) -> (b: bool)
        ensures
            b == self.ordered(),
    {
        self.ordering_fields.len() > 0
    }

    pub fn has_aggregate_column(&self) -> (b: bool)
        ensures
            b == self.aggregated(),
    {
        let mut i: usize = 0;
        while i < self.fields.len()
            invariant
                i <= self.fields.len(),
                forall|j: int| 0 <= j < i ==> !(#[trigger] self.fields@[j]).aggregate(),
            decreases self.fields.len() - i,
        {
            if self.fields[i].has_aggregate_function() {
                return true;
            }
            i += 1;
        }
        false
    }

    pub fn is_buffered(&self) -> (b: bool)
        ensures
            b == self.buffered(),
    {
        self.has_ordering() || self.has_aggregate_column()
    }
}

} // verus!
