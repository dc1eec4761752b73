//! Reading a query.
use crate::datetime::{literal_range, parse_datetime, DateTime};
use crate::eval::{expected_number, read_expected_number};
use crate::field::{Field, FieldKind};
use crate::function::Function;
use crate::lexer::{tokenize, tokens_of, tokens_view, Lexem, Token};
use crate::pattern::{convert_glob_to_pattern, is_glob, is_valid_pattern, regex_valid};
use crate::query::{deciding_regex, ColumnExpr, Expr, LogicalOp, Op, OutputFormat, Query, Root};
use crate::text::{chars_eq, chars_of, lower_ascii, parse_u64, parse_unsigned, to_lower_ascii};
use vstd::prelude::*;

verus! {

/// Why a query could not be read.
#[derive(Clone, Copy, Debug, PartialEq, Eq, Structural)]
pub enum ParseError {
    /// A token stands where no part of a query can begin.
    UnexpectedToken,
    /// A column was expected.
    ExpectedColumn,
    /// The closing bracket of a function or of a condition is missing.
    ExpectedClose,
    /// A directory was expected after `from` or after a comma.
    ExpectedRoot,
    /// No operator stands behind the field of a comparison.
    ExpectedOperator,
    /// No value stands behind the operator of a comparison.
    ExpectedValue,
    /// `order` is not followed by `by`.
    ExpectedBy,
    /// A number was expected behind `limit` or a depth.
    ExpectedNumber,
    /// `into` is not followed by the name of a format.
    ExpectedFormat,
    /// A number that is none, or too large.
    BadNumber,
    /// A date that is none.
    BadDate,
    /// A regular expression that does not compile.
    BadRegex,
    /// A comparison begins with a word that names no field, or a function
    /// call with a word that names no function.
    UnknownField,
}

/// A column as a mathematical object.
pub enum ColumnView {
    Value(Seq<char>),
    Field(Field),
    Function(Function, Box<ColumnView>),
}

/// A condition as a mathematical object.
pub enum ExprView {
    Leaf {
        field: Field,
        op: Op,
        val: Seq<char>,
        regex: Option<Seq<char>>,
        range: Option<(DateTime, DateTime)>,
    },
    Node { logical_op: LogicalOp, left: Box<ExprView>, right: Box<ExprView> },
}

/// A directory to search as a mathematical object.
pub struct RootView {
    pub path: Seq<char>,
    pub min_depth: u32,
    pub max_depth: u32,
    pub archives: bool,
    pub symlinks: bool,
    pub gitignore: bool,
}

/// A query as a mathematical object.
pub struct QueryView {
    pub fields: Seq<ColumnView>,
    pub roots: Seq<RootView>,
    pub expr: Option<ExprView>,
    pub ordering_fields: Seq<ColumnView>,
    pub ordering_asc: Seq<bool>,
    pub limit: u32,
    pub output_format: OutputFormat,
}

/// A column as a mathematical object.
pub open spec fn column_view(c: ColumnExpr) -> ColumnView
    decreases c,
{
    match c {
        ColumnExpr::Value(v) => ColumnView::Value(v@),
        ColumnExpr::Field(f) => ColumnView::Field(f),
        ColumnExpr::Function(f, arg) => ColumnView::Function(f, Box::new(column_view(*arg))),
    }
}

/// A condition as a mathematical object.
pub open spec fn expr_view(e: Expr) -> ExprView
    decreases e,
{
    match e {
        Expr::Leaf { field, op, val, regex, range } => ExprView::Leaf {
            field,
            op,
            val: val@,
            regex: match regex {
                Some(r) => Some(r@),
                None => None,
            },
            range,
        },
        Expr::Node { logical_op, left, right } => ExprView::Node {
            logical_op,
            left: Box::new(expr_view(*left)),
            right: Box::new(expr_view(*right)),
        },
    }
}

impl View for ColumnExpr {
    type V = ColumnView;

    open spec fn view(&self) -> ColumnView {
        column_view(*self)
    }
}

impl View for Expr {
    type V = ExprView;

    open spec fn view(&self) -> ExprView {
        expr_view(*self)
    }
}

impl View for Root {
    type V = RootView;

    open spec fn view(&self) -> RootView {
        RootView {
            path: self.path@,
            min_depth: self.min_depth,
            max_depth: self.max_depth,
            archives: self.archives,
            symlinks: self.symlinks,
            gitignore: self.gitignore,
        }
    }
}

pub open spec fn columns_view(v: Seq<ColumnExpr>) -> Seq<ColumnView> {
    Seq::new(v.len(), |i: int| v[i]@)
}

pub open spec fn roots_view(v: Seq<Root>) -> Seq<RootView> {
    Seq::new(v.len(), |i: int| v[i]@)
}

impl View for Query {
    type V = QueryView;

    open spec fn view(&self) -> QueryView {
        QueryView {
            fields: columns_view(self.fields@),
            roots: roots_view(self.roots@),
            expr: match self.expr {
                Some(e) => Some(e@),
                None => None,
            },
            ordering_fields: columns_view(self.ordering_fields@),
            ordering_asc: self.ordering_asc@,
            limit: self.limit,
            output_format: self.output_format,
        }
    }
}

impl Op {
    /// The comparison that a token names, whatever its case.
    pub open spec fn named(word: Seq<char>) -> Option<Op> {
        let key = lower_ascii(word);
        if key == "="@ {
            Some(Op::Eq)
        } else if key == "=="@ {
            Some(Op::Eq)
        } else if key == "eq"@ {
            Some(Op::Eq)
        } else if key == "!="@ {
            Some(Op::Ne)
        } else if key == "<>"@ {
            Some(Op::Ne)
        } else if key == "ne"@ {
            Some(Op::Ne)
        } else if key == "==="@ {
            Some(Op::Eeq)
        } else if key == "eeq"@ {
            Some(Op::Eeq)
        } else if key == "!=="@ {
            Some(Op::Ene)
        } else if key == "ene"@ {
            Some(Op::Ene)
        } else if key == ">"@ {
            Some(Op::Gt)
        } else if key == "gt"@ {
            Some(Op::Gt)
        } else if key == ">="@ {
            Some(Op::Gte)
        } else if key == "gte"@ {
            Some(Op::Gte)
        } else if key == "ge"@ {
            Some(Op::Gte)
        } else if key == "<"@ {
            Some(Op::Lt)
        } else if key == "lt"@ {
            Some(Op::Lt)
        } else if key == "<="@ {
            Some(Op::Lte)
        } else if key == "lte"@ {
            Some(Op::Lte)
        } else if key == "le"@ {
            Some(Op::Lte)
        } else if key == "~="@ {
            Some(Op::Rx)
        } else if key == "=~"@ {
            Some(Op::Rx)
        } else if key == "regexp"@ {
            Some(Op::Rx)
        } else if key == "rx"@ {
            Some(Op::Rx)
        } else if key == "like"@ {
            Some(Op::Like)
        } else {
            None
        }
    }

    pub fn from_name(word: &str) -> (r: Option<Op>)
        ensures
            r == Op::named(word@),
    {
        let key = to_lower_ascii(&chars_of(word));
        if chars_eq(&key, &chars_of("=")) {
            Some(Op::Eq)
        } else if chars_eq(&key, &chars_of("==")) {
            Some(Op::Eq)
        } else if chars_eq(&key, &chars_of("eq")) {
            Some(Op::Eq)
        } else if chars_eq(&key, &chars_of("!=")) {
            Some(Op::Ne)
        } else if chars_eq(&key, &chars_of("<>")) {
            Some(Op::Ne)
        } else if chars_eq(&key, &chars_of("ne")) {
            Some(Op::Ne)
        } else if chars_eq(&key, &chars_of("===")) {
            Some(Op::Eeq)
        } else if chars_eq(&key, &chars_of("eeq")) {
            Some(Op::Eeq)
        } else if chars_eq(&key, &chars_of("!==")) {
            Some(Op::Ene)
        } else if chars_eq(&key, &chars_of("ene")) {
            Some(Op::Ene)
        } else if chars_eq(&key, &chars_of(">")) {
            Some(Op::Gt)
        } else if chars_eq(&key, &chars_of("gt")) {
            Some(Op::Gt)
        } else if chars_eq(&key, &chars_of(">=")) {
            Some(Op::Gte)
        } else if chars_eq(&key, &chars_of("gte")) {
            Some(Op::Gte)
        } else if chars_eq(&key, &chars_of("ge")) {
            Some(Op::Gte)
        } else if chars_eq(&key, &chars_of("<")) {
            Some(Op::Lt)
        } else if chars_eq(&key, &chars_of("lt")) {
            Some(Op::Lt)
        } else if chars_eq(&key, &chars_of("<=")) {
            Some(Op::Lte)
        } else if chars_eq(&key, &chars_of("lte")) {
            Some(Op::Lte)
        } else if chars_eq(&key, &chars_of("le")) {
            Some(Op::Lte)
        } else if chars_eq(&key, &chars_of("~=")) {
            Some(Op::Rx)
        } else if chars_eq(&key, &chars_of("=~")) {
            Some(Op::Rx)
        } else if chars_eq(&key, &chars_of("regexp")) {
            Some(Op::Rx)
        } else if chars_eq(&key, &chars_of("rx")) {
            Some(Op::Rx)
        } else if chars_eq(&key, &chars_of("like")) {
            Some(Op::Like)
        } else {
            None
        }
    }
}

impl OutputFormat {
    /// The format that a word names, whatever its case.
    pub open spec fn named(word: Seq<char>) -> Option<OutputFormat> {
        let key = lower_ascii(word);
        if key == "tabs"@ {
            Some(OutputFormat::Tabs)
        } else if key == "lines"@ {
            Some(OutputFormat::Lines)
        } else if key == "list"@ {
            Some(OutputFormat::List)
        } else if key == "csv"@ {
            Some(OutputFormat::Csv)
        } else if key == "json"@ {
            Some(OutputFormat::Json)
        } else {
            None
        }
    }

    pub fn from_name(word: &str) -> (r: Option<OutputFormat>)
        ensures
            r == OutputFormat::named(word@),
    {
        let key = to_lower_ascii(&chars_of(word));
        if chars_eq(&key, &chars_of("tabs")) {
            Some(OutputFormat::Tabs)
        } else if chars_eq(&key, &chars_of("lines")) {
            Some(OutputFormat::Lines)
        } else if chars_eq(&key, &chars_of("list")) {
            Some(OutputFormat::List)
        } else if chars_eq(&key, &chars_of("csv")) {
            Some(OutputFormat::Csv)
        } else if chars_eq(&key, &chars_of("json")) {
            Some(OutputFormat::Json)
        } else {
            None
        }
    }
}

/// The token is the word `word`, in whatever case.
pub open spec fn is_keyword(t: Token, word: Seq<char>) -> bool {
    t matches Token::Raw(s) && lower_ascii(s) == word
}

/// The token at `pos` is the word `word`.
pub open spec fn keyword_at(tokens: Seq<Token>, pos: int, word: Seq<char>) -> bool {
    0 <= pos < tokens.len() && is_keyword(tokens[pos], word)
}

/// The text of a word or of a quoted string; none for any other token.
pub open spec fn text_of(t: Token) -> Option<Seq<char>> {
    match t {
        Token::Raw(s) => Some(s),
        Token::Quoted(s) => Some(s),
        _ => None,
    }
}

/// The directory that is searched where the query names none: the current
/// one, to any depth, without archives, links or ignore files.
pub open spec fn default_root() -> RootView {
    RootView {
        path: "."@,
        min_depth: 0,
        max_depth: 0,
        archives: false,
        symlinks: false,
        gitignore: false,
    }
}

/// The column that begins at `pos`, and where the query goes on behind it.
/// A word before `(` names a function of the column in the brackets; any
/// other word is a field where it names one, and a value where it does not;
/// a quoted string is a value.
pub open spec fn column_at(tokens: Seq<Token>, pos: int) -> Result<(ColumnView, int), ParseError>
    decreases tokens.len() - pos,
{
    if pos < 0 || pos >= tokens.len() {
        Err(ParseError::ExpectedColumn)
    } else {
        match tokens[pos] {
            Token::Quoted(s) => Ok((ColumnView::Value(s), pos + 1)),
            Token::Raw(s) => if pos + 1 < tokens.len() && tokens[pos + 1] is Open {
                match Function::named(s) {
                    None => Err(ParseError::UnknownField),
                    Some(f) => match column_at(tokens, pos + 2) {
                        Err(e) => Err(e),
                        Ok((arg, next)) => if 0 <= next < tokens.len() && tokens[next] is Close {
                            Ok((ColumnView::Function(f, Box::new(arg)), next + 1))
                        } else {
                            Err(ParseError::ExpectedClose)
                        },
                    },
                }
            } else {
                match Field::named(s) {
                    Some(f) => Ok((ColumnView::Field(f), pos + 1)),
                    None => Ok((ColumnView::Value(s), pos + 1)),
                }
            },
            _ => Err(ParseError::ExpectedColumn),
        }
    }
}

/// The columns that begin at `pos`, with commas between them.
pub open spec fn columns_at(tokens: Seq<Token>, pos: int) -> Result<
    (Seq<ColumnView>, int),
    ParseError,
>
    decreases tokens.len() - pos,
{
    match column_at(tokens, pos) {
        Err(e) => Err(e),
        Ok((first, next)) => if pos < next < tokens.len() && tokens[next] is Comma {
            match columns_at(tokens, next + 1) {
                Err(e) => Err(e),
                Ok((rest, end)) => Ok((seq![first] + rest, end)),
            }
        } else {
            Ok((seq![first], next))
        },
    }
}

/// The sort keys that begin at `pos`: columns, each with `asc` or `desc`
/// behind it or neither, which stands for `asc`.
pub open spec fn order_at(tokens: Seq<Token>, pos: int) -> Result<
    (Seq<ColumnView>, Seq<bool>, int),
    ParseError,
>
    decreases tokens.len() - pos,
{
    match column_at(tokens, pos) {
        Err(e) => Err(e),
        Ok((first, after)) => {
            let asc = !keyword_at(tokens, after, "desc"@);
            let next = if keyword_at(tokens, after, "desc"@) || keyword_at(tokens, after, "asc"@) {
                after + 1
            } else {
                after
            };
            if pos < next < tokens.len() && tokens[next] is Comma {
                match order_at(tokens, next + 1) {
                    Err(e) => Err(e),
                    Ok((rest, flags, end)) => Ok((seq![first] + rest, seq![asc] + flags, end)),
                }
            } else {
                Ok((seq![first], seq![asc], next))
            }
        },
    }
}

/// The number of a depth or of a limit at `pos`.
pub open spec fn number_at(tokens: Seq<Token>, pos: int) -> Result<u32, ParseError> {
    if pos < 0 || pos >= tokens.len() {
        Err(ParseError::ExpectedNumber)
    } else {
        match text_of(tokens[pos]) {
            None => Err(ParseError::ExpectedNumber),
            Some(s) => match parse_unsigned(s, u32::MAX as nat) {
                Some(n) => Ok(n as u32),
                None => Err(ParseError::BadNumber),
            },
        }
    }
}

/// An option of a root.
#[derive(Clone, Copy, Debug, PartialEq, Eq, Structural)]
pub enum RootOption {
    MinDepth(u32),
    MaxDepth(u32),
    Archives,
    Symlinks,
    Gitignore,
}

/// The root with an option set.
pub open spec fn with_option(root: RootView, option: RootOption) -> RootView {
    match option {
        RootOption::MinDepth(n) => RootView { min_depth: n, ..root },
        RootOption::MaxDepth(n) => RootView { max_depth: n, ..root },
        RootOption::Archives => RootView { archives: true, ..root },
        RootOption::Symlinks => RootView { symlinks: true, ..root },
        RootOption::Gitignore => RootView { gitignore: true, ..root },
    }
}

/// Each of the roots with an option set.
pub open spec fn all_with_option(roots: Seq<RootView>, option: RootOption) -> Seq<RootView> {
    Seq::new(roots.len(), |i: int| with_option(roots[i], option))
}

/// The option that stands at `pos`, if one does, and where the query goes
/// on behind it. `depth` and `maxdepth` set the last level, `mindepth` the
/// first, each with a number behind it; `archives`, `symlinks` and
/// `gitignore` switch on what they name.
pub open spec fn option_at(tokens: Seq<Token>, pos: int) -> Result<
    Option<(RootOption, int)>,
    ParseError,
> {
    if keyword_at(tokens, pos, "depth"@) || keyword_at(tokens, pos, "maxdepth"@) {
        match number_at(tokens, pos + 1) {
            Err(e) => Err(e),
            Ok(n) => Ok(Some((RootOption::MaxDepth(n), pos + 2))),
        }
    } else if keyword_at(tokens, pos, "mindepth"@) {
        match number_at(tokens, pos + 1) {
            Err(e) => Err(e),
            Ok(n) => Ok(Some((RootOption::MinDepth(n), pos + 2))),
        }
    } else if keyword_at(tokens, pos, "archives"@) {
        Ok(Some((RootOption::Archives, pos + 1)))
    } else if keyword_at(tokens, pos, "symlinks"@) {
        Ok(Some((RootOption::Symlinks, pos + 1)))
    } else if keyword_at(tokens, pos, "gitignore"@) {
        Ok(Some((RootOption::Gitignore, pos + 1)))
    } else {
        Ok(None)
    }
}

/// A root with the options that begin at `pos`, and where the query goes
/// on behind them.
pub open spec fn options_at(tokens: Seq<Token>, pos: int, root: RootView) -> Result<
    (RootView, int),
    ParseError,
>
    decreases tokens.len() - pos,
{
    match option_at(tokens, pos) {
        Err(e) => Err(e),
        Ok(None) => Ok((root, pos)),
        Ok(Some((option, next))) => if pos < next <= tokens.len() {
            options_at(tokens, next, with_option(root, option))
        } else {
            Ok((root, pos))
        },
    }
}

/// The roots that begin at `pos`, with commas between them: each a path,
/// as a word or in quotes, and its options.
pub open spec fn roots_at(tokens: Seq<Token>, pos: int) -> Result<(Seq<RootView>, int), ParseError>
    decreases tokens.len() - pos,
{
    if pos < 0 || pos >= tokens.len() {
        Err(ParseError::ExpectedRoot)
    } else {
        match text_of(tokens[pos]) {
            None => Err(ParseError::ExpectedRoot),
            Some(path) => match options_at(
                tokens,
                pos + 1,
                RootView { path, ..default_root() },
            ) {
                Err(e) => Err(e),
                Ok((root, next)) => if pos < next < tokens.len() && tokens[next] is Comma {
                    match roots_at(tokens, next + 1) {
                        Err(e) => Err(e),
                        Ok((rest, end)) => Ok((seq![root] + rest, end)),
                    }
                } else {
                    Ok((seq![root], next))
                },
            },
        }
    }
}

/// The comparison of a field with a value, once the value is read as the
/// field asks: as a number for a numeric field, as a date for a time, and as
/// a regular expression where the operator or a wildcard makes it one.
pub open spec fn leaf_of(field: Field, op: Op, val: Seq<char>) -> Result<ExprView, ParseError> {
    if field.kind() == FieldKind::Number && expected_number(field, val) is None {
        Err(ParseError::BadNumber)
    } else if field.kind() == FieldKind::Time && literal_range(val) is None {
        Err(ParseError::BadDate)
    } else if deciding_regex(op, val) is Some && !regex_valid(deciding_regex(op, val).unwrap()) {
        Err(ParseError::BadRegex)
    } else {
        Ok(
            ExprView::Leaf {
                field,
                op,
                val,
                regex: deciding_regex(op, val),
                range: if field.kind() == FieldKind::Time {
                    literal_range(val)
                } else {
                    None
                },
            },
        )
    }
}

/// Whether each comparison of a condition is what its field, operator and
/// value make it.
pub open spec fn as_parsed(e: ExprView) -> bool
    decreases e,
{
    match e {
        ExprView::Leaf { field, op, val, regex, range } => leaf_of(field, op, val) == Ok::<
            ExprView,
            ParseError,
        >(e),
        ExprView::Node { logical_op, left, right } => as_parsed(*left) && as_parsed(*right),
    }
}

/// What holds of every query that the parser gives: it has a column and a
/// root, a direction for each sort key, and comparisons that are what their
/// fields, operators and values make them.
pub open spec fn parsed(q: QueryView) -> bool {
    &&& q.fields.len() >= 1
    &&& q.roots.len() >= 1
    &&& q.ordering_fields.len() == q.ordering_asc.len()
    &&& match q.expr {
        Some(e) => as_parsed(e),
        None => true,
    }
}

/// The comparison that begins at `pos`: a field, an operator as a token or
/// as a word, and a value as a word or in quotes.
pub open spec fn predicate_at(tokens: Seq<Token>, pos: int) -> Result<(ExprView, int), ParseError> {
    if pos < 0 || pos >= tokens.len() {
        Err(ParseError::ExpectedColumn)
    } else {
        match tokens[pos] {
            Token::Raw(name) => match Field::named(name) {
                None => Err(ParseError::UnknownField),
                Some(field) => if pos + 1 >= tokens.len() {
                    Err(ParseError::ExpectedOperator)
                } else {
                    match (match tokens[pos + 1] {
                        Token::Operator(s) => Op::named(s),
                        Token::Raw(s) => Op::named(s),
                        _ => None,
                    }) {
                        None => Err(ParseError::ExpectedOperator),
                        Some(op) => if pos + 2 >= tokens.len() {
                            Err(ParseError::ExpectedValue)
                        } else {
                            match text_of(tokens[pos + 2]) {
                                None => Err(ParseError::ExpectedValue),
                                Some(val) => match leaf_of(field, op, val) {
                                    Err(e) => Err(e),
                                    Ok(leaf) => Ok((leaf, pos + 3)),
                                },
                            }
                        },
                    }
                },
            },
            _ => Err(ParseError::UnexpectedToken),
        }
    }
}

/// The condition that begins at `pos`, read at one of three levels: at
/// level 2 conditions joined by `or`, at level 1 conditions joined by `and`,
/// at level 0 a comparison or a condition in brackets. So `and` binds tighter
/// than `or`, and a chain of either groups to the right.
pub open spec fn expr_at(tokens: Seq<Token>, pos: int, level: nat) -> Result<
    (ExprView, int),
    ParseError,
>
    decreases tokens.len() - pos, level,
{
    if level == 0 {
        if 0 <= pos < tokens.len() && tokens[pos] is Open {
            match expr_at(tokens, pos + 1, 2) {
                Err(e) => Err(e),
                Ok((inner, next)) => if 0 <= next < tokens.len() && tokens[next] is Close {
                    Ok((inner, next + 1))
                } else {
                    Err(ParseError::ExpectedClose)
                },
            }
        } else {
            predicate_at(tokens, pos)
        }
    } else {
        match expr_at(tokens, pos, (level - 1) as nat) {
            Err(e) => Err(e),
            Ok((left, next)) => {
                let word = if level == 1 {
                    "and"@
                } else {
                    "or"@
                };
                if pos < next && keyword_at(tokens, next, word) {
                    match expr_at(tokens, next + 1, level) {
                        Err(e) => Err(e),
                        Ok((right, end)) => Ok(
                            (
                                ExprView::Node {
                                    logical_op: if level == 1 {
                                        LogicalOp::And
                                    } else {
                                        LogicalOp::Or
                                    },
                                    left: Box::new(left),
                                    right: Box::new(right),
                                },
                                end,
                            ),
                        ),
                    }
                } else {
                    Ok((left, next))
                }
            },
        }
    }
}

/// The query that the clauses from `pos` on make of `q`. The clauses may
/// come in any order; a clause that comes twice counts the second time. An
/// option that stands among the clauses is set for every root that the query
/// has at that point.
pub open spec fn clauses_at(tokens: Seq<Token>, pos: int, q: QueryView) -> Result<
    QueryView,
    ParseError,
>
    decreases tokens.len() - pos,
{
    if pos < 0 || pos >= tokens.len() {
        Ok(q)
    } else if keyword_at(tokens, pos, "from"@) {
        match roots_at(tokens, pos + 1) {
            Err(e) => Err(e),
            Ok((roots, next)) => if pos < next <= tokens.len() {
                clauses_at(tokens, next, QueryView { roots, ..q })
            } else {
                Err(ParseError::UnexpectedToken)
            },
        }
    } else if keyword_at(tokens, pos, "where"@) {
        match expr_at(tokens, pos + 1, 2) {
            Err(e) => Err(e),
            Ok((expr, next)) => if pos < next <= tokens.len() {
                clauses_at(tokens, next, QueryView { expr: Some(expr), ..q })
            } else {
                Err(ParseError::UnexpectedToken)
            },
        }
    } else if keyword_at(tokens, pos, "order"@) {
        if keyword_at(tokens, pos + 1, "by"@) {
            match order_at(tokens, pos + 2) {
                Err(e) => Err(e),
                Ok((fields, asc, next)) => if pos < next <= tokens.len() {
                    clauses_at(
                        tokens,
                        next,
                        QueryView { ordering_fields: fields, ordering_asc: asc, ..q },
                    )
                } else {
                    Err(ParseError::UnexpectedToken)
                },
            }
        } else {
            Err(ParseError::ExpectedBy)
        }
    } else if keyword_at(tokens, pos, "limit"@) {
        match number_at(tokens, pos + 1) {
            Err(e) => Err(e),
            Ok(n) => clauses_at(tokens, pos + 2, QueryView { limit: n, ..q }),
        }
    } else if keyword_at(tokens, pos, "into"@) {
        if pos + 1 >= tokens.len() {
            Err(ParseError::ExpectedFormat)
        } else {
            match (match text_of(tokens[pos + 1]) {
                Some(s) => OutputFormat::named(s),
                None => None,
            }) {
                None => Err(ParseError::ExpectedFormat),
                Some(format) => clauses_at(
                    tokens,
                    pos + 2,
                    QueryView { output_format: format, ..q },
                ),
            }
        }
    } else {
        match option_at(tokens, pos) {
            Err(e) => Err(e),
            Ok(None) => Err(ParseError::UnexpectedToken),
            Ok(Some((option, next))) => if pos < next <= tokens.len() {
                clauses_at(tokens, next, QueryView { roots: all_with_option(q.roots, option), ..q })
            } else {
                Err(ParseError::UnexpectedToken)
            },
        }
    }
}

/// The query that a sequence of tokens stands for: columns, then clauses.
/// Without `from` the current directory is searched, without `limit` all rows
/// are wanted, without `into` the rows are written with tabs.
pub open spec fn query_of(tokens: Seq<Token>) -> Result<QueryView, ParseError> {
    match columns_at(tokens, 0) {
        Err(e) => Err(e),
        Ok((fields, next)) => clauses_at(
            tokens,
            next,
            QueryView {
                fields,
                roots: seq![default_root()],
                expr: None,
                ordering_fields: Seq::empty(),
                ordering_asc: Seq::empty(),
                limit: 0,
                output_format: OutputFormat::Tabs,
            },
        ),
    }
}

fn keyword(tokens: &Vec<Lexem>, pos: usize, word: &str) -> (b: bool)
    ensures
        b == keyword_at(tokens_view(tokens@), pos as int, word@),
{
    if pos >= tokens.len() {
        return false;
    }
    match &tokens[pos] {
        Lexem::RawString(s) => chars_eq(
            &to_lower_ascii(&chars_of(s.as_str())),
            &chars_of(word),
        ),
        _ => false,
    }
}

fn token_text(t: &Lexem) -> (r: Option<&String>)
    ensures
        r.is_some() == text_of(t@).is_some(),
        r.is_some() ==> r.unwrap()@ == text_of(t@).unwrap(),
{
    match t {
        Lexem::RawString(s) => Some(s),
        Lexem::String(s) => Some(s),
        _ => None,
    }
}

fn is_open(tokens: &Vec<Lexem>, pos: usize) -> (b: bool)
    ensures
        b == (pos < tokens@.len() && tokens_view(tokens@)[pos as int] is Open),
{
    if pos >= tokens.len() {
        return false;
    }
    match &tokens[pos] {
        Lexem::Open => true,
        _ => false,
    }
}

fn is_close(tokens: &Vec<Lexem>, pos: usize) -> (b: bool)
    ensures
        b == (pos < tokens@.len() && tokens_view(tokens@)[pos as int] is Close),
{
    if pos >= tokens.len() {
        return false;
    }
    match &tokens[pos] {
        Lexem::Close => true,
        _ => false,
    }
}

fn is_comma(tokens: &Vec<Lexem>, pos: usize) -> (b: bool)
    ensures
        b == (pos < tokens@.len() && tokens_view(tokens@)[pos as int] is Comma),
{
    if pos >= tokens.len() {
        return false;
    }
    match &tokens[pos] {
        Lexem::Comma => true,
        _ => false,
    }
}

fn parse_column(tokens: &Vec<Lexem>, pos: usize) -> (r: Result<(ColumnExpr, usize), ParseError>)
    ensures
        match r {
            Ok((c, next)) => column_at(tokens_view(tokens@), pos as int) == Ok::<
                (ColumnView, int),
                ParseError,
            >((c@, next as int)) && pos < next <= tokens@.len(),
            Err(e) => column_at(tokens_view(tokens@), pos as int) == Err::<
                (ColumnView, int),
                ParseError,
            >(e),
        },
    decreases tokens@.len() - pos,
{
    assert(tokens.len() <= usize::MAX);
    if pos >= tokens.len() {
        return Err(ParseError::ExpectedColumn);
    }
    match &tokens[pos] {
        Lexem::String(s) => Ok((ColumnExpr::Value(s.clone()), pos + 1)),
        Lexem::RawString(s) => {
            if is_open(tokens, pos + 1) {
                match Function::from_name(s.as_str()) {
                    None => Err(ParseError::UnknownField),
                    Some(f) => match parse_column(tokens, pos + 2) {
                        Err(e) => Err(e),
                        Ok((arg, next)) => {
                            if is_close(tokens, next) {
                                Ok((ColumnExpr::Function(f, Box::new(arg)), next + 1))
                            } else {
                                Err(ParseError::ExpectedClose)
                            }
                        },
                    },
                }
            } else {
                match Field::from_name(s.as_str()) {
                    Some(f) => Ok((ColumnExpr::Field(f), pos + 1)),
                    None => Ok((ColumnExpr::Value(s.clone()), pos + 1)),
                }
            }
        },
        _ => Err(ParseError::ExpectedColumn),
    }
}

fn parse_columns(tokens: &Vec<Lexem>, pos: usize) -> (r: Result<
    (Vec<ColumnExpr>, usize),
    ParseError,
>)
    ensures
        match r {
            Ok((cols, next)) => columns_at(tokens_view(tokens@), pos as int) == Ok::<
                (Seq<ColumnView>, int),
                ParseError,
            >((columns_view(cols@), next as int)) && pos < next <= tokens@.len() && cols@.len()
                >= 1,
            Err(e) => columns_at(tokens_view(tokens@), pos as int) == Err::<
                (Seq<ColumnView>, int),
                ParseError,
            >(e),
        },
    decreases tokens@.len() - pos,
{
    assert(tokens.len() <= usize::MAX);
    match parse_column(tokens, pos) {
        Err(e) => Err(e),
        Ok((first, next)) => {
            if is_comma(tokens, next) {
                match parse_columns(tokens, next + 1) {
                    Err(e) => Err(e),
                    Ok((rest, end)) => {
                        let mut cols = rest;
                        let ghost tail = columns_view(cols@);
                        let ghost head = first@;
                        cols.insert(0, first);
                        assert(columns_view(cols@) =~= seq![head] + tail);
                        Ok((cols, end))
                    },
                }
            } else {
                let ghost head = first@;
                let mut cols: Vec<ColumnExpr> = Vec::new();
                cols.push(first);
                assert(columns_view(cols@) =~= seq![head]);
                Ok((cols, next))
            }
        },
    }
}

fn parse_order(tokens: &Vec<Lexem>, pos: usize) -> (r: Result<
    (Vec<ColumnExpr>, Vec<bool>, usize),
    ParseError,
>)
    ensures
        match r {
            Ok((cols, asc, next)) => order_at(tokens_view(tokens@), pos as int) == Ok::<
                (Seq<ColumnView>, Seq<bool>, int),
                ParseError,
            >((columns_view(cols@), asc@, next as int)) && pos < next <= tokens@.len()
                && cols@.len() == asc@.len(),
            Err(e) => order_at(tokens_view(tokens@), pos as int) == Err::<
                (Seq<ColumnView>, Seq<bool>, int),
                ParseError,
            >(e),
        },
    decreases tokens@.len() - pos,
{
    assert(tokens.len() <= usize::MAX);
    match parse_column(tokens, pos) {
        Err(e) => Err(e),
        Ok((first, after)) => {
            let desc = keyword(tokens, after, "desc");
            let next = if desc || keyword(tokens, after, "asc") {
                after + 1
            } else {
                after
            };
            if is_comma(tokens, next) {
                match parse_order(tokens, next + 1) {
                    Err(e) => Err(e),
                    Ok((rest, flags, end)) => {
                        let mut cols = rest;
                        let mut asc = flags;
                        let ghost tail = columns_view(cols@);
                        let ghost head = first@;
                        let ghost old_asc = asc@;
                        cols.insert(0, first);
                        asc.insert(0, !desc);
                        assert(columns_view(cols@) =~= seq![head] + tail);
                        assert(asc@ =~= seq![!desc] + old_asc);
                        Ok((cols, asc, end))
                    },
                }
            } else {
                let ghost head = first@;
                let mut cols: Vec<ColumnExpr> = Vec::new();
                cols.push(first);
                let mut asc: Vec<bool> = Vec::new();
                asc.push(!desc);
                assert(columns_view(cols@) =~= seq![head]);
                assert(asc@ =~= seq![!desc]);
                Ok((cols, asc, next))
            }
        },
    }
}

fn parse_number(tokens: &Vec<Lexem>, pos: usize) -> (r: Result<u32, ParseError>)
    ensures
        r == number_at(tokens_view(tokens@), pos as int),
        r is Ok ==> pos < tokens@.len(),
{
    if pos >= tokens.len() {
        return Err(ParseError::ExpectedNumber);
    }
    match token_text(&tokens[pos]) {
        None => Err(ParseError::ExpectedNumber),
        Some(s) => match parse_u64(&chars_of(s.as_str()), 0xffff_ffff) {
            Some(n) => Ok(n as u32),
            None => Err(ParseError::BadNumber),
        },
    }
}

fn parse_option(tokens: &Vec<Lexem>, pos: usize) -> (r: Result<
    Option<(RootOption, usize)>,
    ParseError,
>)
    ensures
        match r {
            Ok(Some((option, next))) => option_at(tokens_view(tokens@), pos as int) == Ok::<
                Option<(RootOption, int)>,
                ParseError,
            >(Some((option, next as int))) && pos < next <= tokens@.len(),
            Ok(None) => option_at(tokens_view(tokens@), pos as int) == Ok::<
                Option<(RootOption, int)>,
                ParseError,
            >(None),
            Err(e) => option_at(tokens_view(tokens@), pos as int) == Err::<
                Option<(RootOption, int)>,
                ParseError,
            >(e),
        },
{
    assert(tokens.len() <= usize::MAX);
    if keyword(tokens, pos, "depth") || keyword(tokens, pos, "maxdepth") {
        match parse_number(tokens, pos + 1) {
            Err(e) => Err(e),
            Ok(n) => Ok(Some((RootOption::MaxDepth(n), pos + 2))),
        }
    } else if keyword(tokens, pos, "mindepth") {
        match parse_number(tokens, pos + 1) {
            Err(e) => Err(e),
            Ok(n) => Ok(Some((RootOption::MinDepth(n), pos + 2))),
        }
    } else if keyword(tokens, pos, "archives") {
        Ok(Some((RootOption::Archives, pos + 1)))
    } else if keyword(tokens, pos, "symlinks") {
        Ok(Some((RootOption::Symlinks, pos + 1)))
    } else if keyword(tokens, pos, "gitignore") {
        Ok(Some((RootOption::Gitignore, pos + 1)))
    } else {
        Ok(None)
    }
}

fn set_option(root: &mut Root, option: RootOption)
    ensures
        final(root)@ == with_option(old(root)@, option),
{
    match option {
        RootOption::MinDepth(n) => {
            root.min_depth = n;
        },
        RootOption::MaxDepth(n) => {
            root.max_depth = n;
        },
        RootOption::Archives => {
            root.archives = true;
        },
        RootOption::Symlinks => {
            root.symlinks = true;
        },
        RootOption::Gitignore => {
            root.gitignore = true;
        },
    }
}

fn set_option_for_all(roots: Vec<Root>, option: RootOption) -> (r: Vec<Root>)
    ensures
        roots_view(r@) == all_with_option(roots_view(roots@), option),
        r@.len() == roots@.len(),
{
    let mut roots = roots;
    let ghost before = roots_view(roots@);
    let mut i: usize = 0;
    while i < roots.len()
        invariant
            i <= roots.len(),
            roots@.len() == before.len(),
            forall|j: int| 0 <= j < i ==> (#[trigger] roots@[j])@ == with_option(before[j], option),
            forall|j: int| i <= j < roots@.len() ==> (#[trigger] roots@[j])@ == before[j],
        decreases roots.len() - i,
    {
        let mut root = Root {
            path: roots[i].path.clone(),
            min_depth: roots[i].min_depth,
            max_depth: roots[i].max_depth,
            archives: roots[i].archives,
            symlinks: roots[i].symlinks,
            gitignore: roots[i].gitignore,
        };
        set_option(&mut root, option);
        roots.set(i, root);
        i += 1;
    }
    assert(roots_view(roots@) =~= all_with_option(before, option));
    roots
}

fn parse_options(tokens: &Vec<Lexem>, pos: usize, root: Root) -> (r: Result<
    (Root, usize),
    ParseError,
>)
    requires
        pos <= tokens@.len(),
    ensures
        match r {
            Ok((done, next)) => options_at(tokens_view(tokens@), pos as int, root@) == Ok::<
                (RootView, int),
                ParseError,
            >((done@, next as int)) && pos <= next <= tokens@.len(),
            Err(e) => options_at(tokens_view(tokens@), pos as int, root@) == Err::<
                (RootView, int),
                ParseError,
            >(e),
        },
    decreases tokens@.len() - pos,
{
    let mut root = root;
    match parse_option(tokens, pos) {
        Err(e) => Err(e),
        Ok(None) => Ok((root, pos)),
        Ok(Some((option, next))) => {
            set_option(&mut root, option);
            parse_options(tokens, next, root)
        },
    }
}

fn new_root(path: String) -> (r: Root)
    ensures
        r@ == (RootView { path: path@, ..default_root() }),
{
    Root { path, min_depth: 0, max_depth: 0, archives: false, symlinks: false, gitignore: false }
}

fn parse_roots(tokens: &Vec<Lexem>, pos: usize) -> (r: Result<(Vec<Root>, usize), ParseError>)
    ensures
        match r {
            Ok((roots, next)) => roots_at(tokens_view(tokens@), pos as int) == Ok::<
                (Seq<RootView>, int),
                ParseError,
            >((roots_view(roots@), next as int)) && pos < next <= tokens@.len() && roots@.len()
                >= 1,
            Err(e) => roots_at(tokens_view(tokens@), pos as int) == Err::<
                (Seq<RootView>, int),
                ParseError,
            >(e),
        },
    decreases tokens@.len() - pos,
{
    assert(tokens.len() <= usize::MAX);
    if pos >= tokens.len() {
        return Err(ParseError::ExpectedRoot);
    }
    match token_text(&tokens[pos]) {
        None => Err(ParseError::ExpectedRoot),
        Some(path) => match parse_options(tokens, pos + 1, new_root(path.clone())) {
            Err(e) => Err(e),
            Ok((root, next)) => {
                if is_comma(tokens, next) {
                    match parse_roots(tokens, next + 1) {
                        Err(e) => Err(e),
                        Ok((rest, end)) => {
                            let mut roots = rest;
                            let ghost tail = roots_view(roots@);
                            let ghost head = root@;
                            roots.insert(0, root);
                            assert(roots_view(roots@) =~= seq![head] + tail);
                            Ok((roots, end))
                        },
                    }
                } else {
                    let ghost head = root@;
                    let mut roots: Vec<Root> = Vec::new();
                    roots.push(root);
                    assert(roots_view(roots@) =~= seq![head]);
                    Ok((roots, next))
                }
            },
        },
    }
}

/// The regular expression that decides a comparison, if one does.
pub fn pattern_for(op: Op, val: &str) -> (r: Option<String>)
    ensures
        r.is_some() == deciding_regex(op, val@).is_some(),
        r.is_some() ==> r.unwrap()@ == deciding_regex(op, val@).unwrap(),
{
    match op {
        Op::Rx | Op::Like => Some(String::from_str(val)),
        Op::Eq | Op::Ne => if is_glob(val) {
            Some(convert_glob_to_pattern(val))
        } else {
            None
        },
        _ => None,
    }
}

/// Makes the comparison of a field with a value, or tells why the value
/// will not do.
pub fn make_leaf(field: Field, op: Op, val: &str) -> (r: Result<Expr, ParseError>)
    ensures
        match r {
            Ok(e) => leaf_of(field, op, val@) == Ok::<ExprView, ParseError>(e@) && e.wf()
                && as_parsed(e@),
            Err(e) => leaf_of(field, op, val@) == Err::<ExprView, ParseError>(e),
        },
{
    let kind = field.get_kind();
    if kind == FieldKind::Number && read_expected_number(field, val).is_none() {
        return Err(ParseError::BadNumber);
    }
    let range = if kind == FieldKind::Time {
        match parse_datetime(val) {
            None => {
                return Err(ParseError::BadDate);
            },
            Some(r) => Some(r),
        }
    } else {
        None
    };
    let regex = pattern_for(op, val);
    match &regex {
        Some(r) => {
            if !is_valid_pattern(r.as_str()) {
                return Err(ParseError::BadRegex);
            }
        },
        None => {},
    }
    Ok(Expr::Leaf { field, op, val: String::from_str(val), regex, range })
}

fn parse_predicate(tokens: &Vec<Lexem>, pos: usize) -> (r: Result<(Expr, usize), ParseError>)
    ensures
        match r {
            Ok((e, next)) => predicate_at(tokens_view(tokens@), pos as int) == Ok::<
                (ExprView, int),
                ParseError,
            >((e@, next as int)) && pos < next <= tokens@.len() && e.wf() && as_parsed(e@),
            Err(e) => predicate_at(tokens_view(tokens@), pos as int) == Err::<
                (ExprView, int),
                ParseError,
            >(e),
        },
{
    assert(tokens.len() <= usize::MAX);
    if pos >= tokens.len() {
        return Err(ParseError::ExpectedColumn);
    }
    match &tokens[pos] {
        Lexem::RawString(name) => match Field::from_name(name.as_str()) {
            None => Err(ParseError::UnknownField),
            Some(field) => {
                if pos + 1 >= tokens.len() {
                    return Err(ParseError::ExpectedOperator);
                }
                let op = match &tokens[pos + 1] {
                    Lexem::Operator(s) => Op::from_name(s.as_str()),
                    Lexem::RawString(s) => Op::from_name(s.as_str()),
                    _ => None,
                };
                match op {
                    None => Err(ParseError::ExpectedOperator),
                    Some(op) => {
                        if pos + 2 >= tokens.len() {
                            return Err(ParseError::ExpectedValue);
                        }
                        match token_text(&tokens[pos + 2]) {
                            None => Err(ParseError::ExpectedValue),
                            Some(val) => match make_leaf(field, op, val.as_str()) {
                                Err(e) => Err(e),
                                Ok(leaf) => Ok((leaf, pos + 3)),
                            },
                        }
                    },
                }
            },
        },
        _ => Err(ParseError::UnexpectedToken),
    }
}

fn parse_expr(tokens: &Vec<Lexem>, pos: usize, level: u8) -> (r: Result<(Expr, usize), ParseError>)
    requires
        level <= 2,
    ensures
        match r {
            Ok((e, next)) => expr_at(tokens_view(tokens@), pos as int, level as nat) == Ok::<
                (ExprView, int),
                ParseError,
            >((e@, next as int)) && pos < next <= tokens@.len() && e.wf() && as_parsed(e@),
            Err(e) => expr_at(tokens_view(tokens@), pos as int, level as nat) == Err::<
                (ExprView, int),
                ParseError,
            >(e),
        },
    decreases tokens@.len() - pos, level,
{
    assert(tokens.len() <= usize::MAX);
    if level == 0 {
        if is_open(tokens, pos) {
            match parse_expr(tokens, pos + 1, 2) {
                Err(e) => Err(e),
                Ok((inner, next)) => {
                    if is_close(tokens, next) {
                        Ok((inner, next + 1))
                    } else {
                        Err(ParseError::ExpectedClose)
                    }
                },
            }
        } else {
            parse_predicate(tokens, pos)
        }
    } else {
        match parse_expr(tokens, pos, level - 1) {
            Err(e) => Err(e),
            Ok((left, next)) => {
                let joined = if level == 1 {
                    keyword(tokens, next, "and")
                } else {
                    keyword(tokens, next, "or")
                };
                if joined {
                    match parse_expr(tokens, next + 1, level) {
                        Err(e) => Err(e),
                        Ok((right, end)) => Ok(
                            (
                                Expr::Node {
                                    logical_op: if level == 1 {
                                        LogicalOp::And
                                    } else {
                                        LogicalOp::Or
                                    },
                                    left: Box::new(left),
                                    right: Box::new(right),
                                },
                                end,
                            ),
                        ),
                    }
                } else {
                    Ok((left, next))
                }
            },
        }
    }
}

fn parse_clauses(tokens: &Vec<Lexem>, pos: usize, q: Query) -> (r: Result<Query, ParseError>)
    requires
        q.wf(),
        parsed(q@),
    ensures
        match r {
            Ok(done) => clauses_at(tokens_view(tokens@), pos as int, q@) == Ok::<
                QueryView,
                ParseError,
            >(done@) && done.wf() && parsed(done@),
            Err(e) => clauses_at(tokens_view(tokens@), pos as int, q@) == Err::<
                QueryView,
                ParseError,
            >(e),
        },
    decreases tokens@.len() - pos,
{
    assert(tokens.len() <= usize::MAX);
    let mut q = q;
    if pos >= tokens.len() {
        Ok(q)
    } else if keyword(tokens, pos, "from") {
        match parse_roots(tokens, pos + 1) {
            Err(e) => Err(e),
            Ok((roots, next)) => {
                q.roots = roots;
                parse_clauses(tokens, next, q)
            },
        }
    } else if keyword(tokens, pos, "where") {
        match parse_expr(tokens, pos + 1, 2) {
            Err(e) => Err(e),
            Ok((expr, next)) => {
                q.expr = Some(expr);
                parse_clauses(tokens, next, q)
            },
        }
    } else if keyword(tokens, pos, "order") {
        if keyword(tokens, pos + 1, "by") {
            match parse_order(tokens, pos + 2) {
                Err(e) => Err(e),
                Ok((fields, asc, next)) => {
                    q.ordering_fields = fields;
                    q.ordering_asc = asc;
                    parse_clauses(tokens, next, q)
                },
            }
        } else {
            Err(ParseError::ExpectedBy)
        }
    } else if keyword(tokens, pos, "limit") {
        match parse_number(tokens, pos + 1) {
            Err(e) => Err(e),
            Ok(n) => {
                q.limit = n;
                parse_clauses(tokens, pos + 2, q)
            },
        }
    } else if keyword(tokens, pos, "into") {
        if pos + 1 >= tokens.len() {
            return Err(ParseError::ExpectedFormat);
        }
        let format = match token_text(&tokens[pos + 1]) {
            Some(s) => OutputFormat::from_name(s.as_str()),
            None => None,
        };
        match format {
            None => Err(ParseError::ExpectedFormat),
            Some(format) => {
                q.output_format = format;
                parse_clauses(tokens, pos + 2, q)
            },
        }
    } else {
        match parse_option(tokens, pos) {
            Err(e) => Err(e),
            Ok(None) => Err(ParseError::UnexpectedToken),
            Ok(Some((option, next))) => {
                let Query {
                    fields,
                    roots,
                    expr,
                    ordering_fields,
                    ordering_asc,
                    limit,
                    output_format,
                } = q;
                let q2 = Query {
                    fields,
                    roots: set_option_for_all(roots, option),
                    expr,
                    ordering_fields,
                    ordering_asc,
                    limit,
                    output_format,
                };
                parse_clauses(tokens, next, q2)
            },
        }
    }
}

/// Reads a query from its tokens.
pub fn parse_tokens(tokens: &Vec<Lexem>) -> (r: Result<Query, ParseError>)
    ensures
        match r {
            Ok(q) => query_of(tokens_view(tokens@)) == Ok::<QueryView, ParseError>(q@) && q.wf()
                && parsed(q@),
            Err(e) => query_of(tokens_view(tokens@)) == Err::<QueryView, ParseError>(e),
        },
{
    match parse_columns(tokens, 0) {
        Err(e) => Err(e),
        Ok((fields, next)) => {
            let mut roots: Vec<Root> = Vec::new();
            roots.push(new_root(String::from_str(".")));
            assert(roots_view(roots@) =~= seq![default_root()]);
            let q = Query {
                fields,
                roots,
                expr: None,
                ordering_fields: Vec::new(),
                ordering_asc: Vec::new(),
                limit: 0,
                output_format: OutputFormat::Tabs,
            };
            assert(columns_view(q.ordering_fields@) =~= Seq::<ColumnView>::empty());
            parse_clauses(tokens, next, q)
        },
    }
}

/// The reader of queries. It keeps the tokens of the query it read last.
pub struct Parser {
    pub lexems: Vec<Lexem>,
}

impl Parser {
    pub fn new() -> (p: Parser)
        ensures
            p.lexems@.len() == 0,
    {
        Parser { lexems: Vec::new() }
    }

    /// Reads a query. The first thing that is wrong with it is reported.
    pub fn parse(&mut self, query: &str) -> (r: Result<Query, ParseError>)
        ensures
            tokens_view(final(self).lexems@) == tokens_of(query@),
            match r {
                Ok(q) => query_of(tokens_of(query@)) == Ok::<QueryView, ParseError>(q@) && q.wf()
                    && parsed(q@),
                Err(e) => query_of(tokens_of(query@)) == Err::<QueryView, ParseError>(e),
            },
    {
        self.lexems = tokenize(query);
        parse_tokens(&self.lexems)
    }
}

impl ParseError {
    /// The sentence that says what is wrong.
    pub open spec fn text(self) -> Seq<char> {
        match self {
            ParseError::UnexpectedToken => "unexpected token"@,
            ParseError::ExpectedColumn => "a column was expected"@,
            ParseError::ExpectedClose => "a closing bracket was expected"@,
            ParseError::ExpectedRoot => "a directory was expected"@,
            ParseError::ExpectedOperator => "an operator was expected"@,
            ParseError::ExpectedValue => "a value was expected"@,
            ParseError::ExpectedBy => "`by` was expected after `order`"@,
            ParseError::ExpectedNumber => "a number was expected"@,
            ParseError::ExpectedFormat => "the name of an output format was expected"@,
            ParseError::BadNumber => "this is no number that can be used here"@,
            ParseError::BadDate => "this is no date"@,
            ParseError::BadRegex => "this is no regular expression"@,
            ParseError::UnknownField => "this is no name of a field or function"@,
        }
    }

    /// A sentence that says what is wrong.
    pub fn message(&self) -> (s: &'static str)
        ensures
            s@ == self.text(),
    {
        match self {
            ParseError::UnexpectedToken => "unexpected token",
            ParseError::ExpectedColumn => "a column was expected",
            ParseError::ExpectedClose => "a closing bracket was expected",
            ParseError::ExpectedRoot => "a directory was expected",
            ParseError::ExpectedOperator => "an operator was expected",
            ParseError::ExpectedValue => "a value was expected",
            ParseError::ExpectedBy => "`by` was expected after `order`",
            ParseError::ExpectedNumber => "a number was expected",
            ParseError::ExpectedFormat => "the name of an output format was expected",
            ParseError::BadNumber => "this is no number that can be used here",
            ParseError::BadDate => "this is no date",
            ParseError::BadRegex => "this is no regular expression",
            ParseError::UnknownField => "this is no name of a field or function",
        }
    }
}

} // verus!
