//! Writing a query down again, and why reading what was written gives the
//! query back.
use crate::field::{reveal_field_names, Field};
use crate::function::Function;
use crate::lexer::{is_word_char, tokens_of, tokens_view, Lexem, Token};
use crate::parser::{
    as_parsed, clauses_at, column_at, columns_at, columns_view, default_root, expr_at, is_keyword,
    keyword_at, number_at, option_at, options_at, order_at, parsed, predicate_at, query_of,
    roots_at, roots_view, text_of, ColumnView, ExprView, ParseError, QueryView, RootOption,
    RootView,
};
use crate::query::{ColumnExpr, Expr, LogicalOp, Op, OutputFormat, Query, Root};
use crate::text::{
    all_digits, decimal, decimal_string, digit_char, digits_value, is_digit, lower_ascii,
    parse_unsigned,
};
use crate::writer::{all_writable, lemma_written_round_trip, writable, write_tokens, written};
use vstd::prelude::*;

verus! {

/// `part` stands in `ts` at `pos`.
pub open spec fn has_at(ts: Seq<Token>, pos: int, part: Seq<Token>) -> bool {
    0 <= pos && pos + part.len() <= ts.len() && ts.subrange(pos, pos + part.len()) == part
}

/// Where two parts stand one after the other, each stands in its place.
pub proof fn lemma_has_at_split(ts: Seq<Token>, pos: int, a: Seq<Token>, b: Seq<Token>)
    requires
        has_at(ts, pos, a + b),
    ensures
        has_at(ts, pos, a),
        has_at(ts, pos + a.len(), b),
{
    let whole = ts.subrange(pos, pos + (a + b).len());
    assert(ts.subrange(pos, pos + a.len()) =~= whole.subrange(0, a.len() as int));
    assert(whole.subrange(0, a.len() as int) =~= a);
    assert(ts.subrange(pos + a.len(), pos + a.len() + b.len()) =~= whole.subrange(
        a.len() as int,
        (a + b).len() as int,
    ));
    assert(whole.subrange(a.len() as int, (a + b).len() as int) =~= b);
}

/// Where a part stands, each of its tokens stands.
pub proof fn lemma_has_at_index(ts: Seq<Token>, pos: int, part: Seq<Token>, i: int)
    requires
        has_at(ts, pos, part),
        0 <= i < part.len(),
    ensures
        ts[pos + i] == part[i],
{
    assert(ts.subrange(pos, pos + part.len())[i] == ts[pos + i]);
}

/// A text without capital letters is its own lower-case form.
pub proof fn lemma_lower_is_fixed(s: Seq<char>)
    requires
        forall|i: int| 0 <= i < s.len() ==> !('A' <= #[trigger] s[i] && s[i] <= 'Z'),
    ensures
        lower_ascii(s) == s,
{
    assert(lower_ascii(s) =~= s);
}

/// The tokens that write a column down: a value in quotes, a field by its
/// name, a function by its name with its argument in brackets.
pub open spec fn column_tokens(c: ColumnView) -> Seq<Token>
    decreases c,
{
    match c {
        ColumnView::Value(s) => seq![Token::Quoted(s)],
        ColumnView::Field(f) => seq![Token::Raw(f.label())],
        ColumnView::Function(f, arg) => seq![Token::Raw(f.label()), Token::Open] + column_tokens(
            *arg,
        ) + seq![Token::Close],
    }
}

/// The tokens that write columns down, with commas between them.
pub open spec fn columns_tokens(cs: Seq<ColumnView>) -> Seq<Token>
    decreases cs.len(),
{
    if cs.len() == 0 {
        Seq::empty()
    } else if cs.len() == 1 {
        column_tokens(cs[0])
    } else {
        column_tokens(cs[0]) + seq![Token::Comma] + columns_tokens(cs.drop_first())
    }
}

/// The name of a field names the field.
pub proof fn lemma_field_label_names_it(f: Field)
    ensures
        Field::named(f.label()) == Some(f),
{
    reveal_field_names();
    lemma_lower_is_fixed(f.label());
}

/// The name of a function names the function.
pub proof fn lemma_function_label_names_it(f: Function)
    ensures
        Function::named(f.label()) == Some(f),
{
    reveal_function_names();
    lemma_lower_is_fixed(f.label());
}

/// What the names of the functions hold.
pub proof fn reveal_function_names()
    ensures
        "lower"@ == seq!['l', 'o', 'w', 'e', 'r'],
        "upper"@ == seq!['u', 'p', 'p', 'e', 'r'],
        "length"@ == seq!['l', 'e', 'n', 'g', 't', 'h'],
        "year"@ == seq!['y', 'e', 'a', 'r'],
        "month"@ == seq!['m', 'o', 'n', 't', 'h'],
        "day"@ == seq!['d', 'a', 'y'],
        "min"@ == seq!['m', 'i', 'n'],
        "max"@ == seq!['m', 'a', 'x'],
        "avg"@ == seq!['a', 'v', 'g'],
        "sum"@ == seq!['s', 'u', 'm'],
        "count"@ == seq!['c', 'o', 'u', 'n', 't'],
{
    reveal_strlit("lower");
    reveal_strlit("upper");
    reveal_strlit("length");
    reveal_strlit("year");
    reveal_strlit("month");
    reveal_strlit("day");
    reveal_strlit("min");
    reveal_strlit("max");
    reveal_strlit("avg");
    reveal_strlit("sum");
    reveal_strlit("count");
    assert("lower"@ =~= seq!['l', 'o', 'w', 'e', 'r']);
    assert("upper"@ =~= seq!['u', 'p', 'p', 'e', 'r']);
    assert("length"@ =~= seq!['l', 'e', 'n', 'g', 't', 'h']);
    assert("year"@ =~= seq!['y', 'e', 'a', 'r']);
    assert("month"@ =~= seq!['m', 'o', 'n', 't', 'h']);
    assert("day"@ =~= seq!['d', 'a', 'y']);
    assert("min"@ =~= seq!['m', 'i', 'n']);
    assert("max"@ =~= seq!['m', 'a', 'x']);
    assert("avg"@ =~= seq!['a', 'v', 'g']);
    assert("sum"@ =~= seq!['s', 'u', 'm']);
    assert("count"@ =~= seq!['c', 'o', 'u', 'n', 't']);
}

/// Reading a column that was written down gives the column back, where no
/// opening bracket follows it.
pub proof fn lemma_column_round_trip(ts: Seq<Token>, pos: int, c: ColumnView)
    requires
        has_at(ts, pos, column_tokens(c)),
        pos + column_tokens(c).len() < ts.len() ==> !(ts[pos + column_tokens(c).len()] is Open),
    ensures
        column_at(ts, pos) == Ok::<(ColumnView, int), ParseError>(
            (c, pos + column_tokens(c).len()),
        ),
    decreases c,
{
    let part = column_tokens(c);
    lemma_has_at_index(ts, pos, part, 0);
    match c {
        ColumnView::Value(s) => {},
        ColumnView::Field(f) => {
            lemma_field_label_names_it(f);
        },
        ColumnView::Function(f, arg) => {
            lemma_function_label_names_it(f);
            let inner = column_tokens(*arg);
            lemma_has_at_index(ts, pos, part, 1);
            lemma_has_at_index(ts, pos, part, part.len() - 1);
            assert(part =~= seq![Token::Raw(f.label()), Token::Open] + (inner + seq![Token::Close]));
            lemma_has_at_split(
                ts,
                pos,
                seq![Token::Raw(f.label()), Token::Open],
                inner + seq![Token::Close],
            );
            lemma_has_at_split(ts, pos + 2, inner, seq![Token::Close]);
            lemma_column_round_trip(ts, pos + 2, *arg);
        },
    }
}

/// Reading columns that were written down gives them back, where neither a
/// comma nor an opening bracket follows them.
pub proof fn lemma_columns_round_trip(ts: Seq<Token>, pos: int, cs: Seq<ColumnView>)
    requires
        cs.len() >= 1,
        has_at(ts, pos, columns_tokens(cs)),
        pos + columns_tokens(cs).len() < ts.len() ==> !(ts[pos + columns_tokens(cs).len()] is Open)
            && !(ts[pos + columns_tokens(cs).len()] is Comma),
    ensures
        columns_at(ts, pos) == Ok::<(Seq<ColumnView>, int), ParseError>(
            (cs, pos + columns_tokens(cs).len()),
        ),
    decreases cs.len(),
{
    let first = column_tokens(cs[0]);
    lemma_column_len(cs[0]);
    if cs.len() == 1 {
        lemma_column_round_trip(ts, pos, cs[0]);
        assert(seq![cs[0]] =~= cs);
    } else {
        let rest = columns_tokens(cs.drop_first());
        assert(columns_tokens(cs) =~= first + (seq![Token::Comma] + rest));
        lemma_has_at_split(ts, pos, first, seq![Token::Comma] + rest);
        lemma_has_at_split(ts, pos + first.len(), seq![Token::Comma], rest);
        lemma_has_at_index(ts, pos + first.len(), seq![Token::Comma], 0);
        lemma_column_round_trip(ts, pos, cs[0]);
        lemma_columns_round_trip(ts, pos + first.len() + 1, cs.drop_first());
        assert(seq![cs[0]] + cs.drop_first() =~= cs);
    }
}

/// A column is written with one token at least.
pub proof fn lemma_column_len(c: ColumnView)
    ensures
        column_tokens(c).len() >= 1,
    decreases c,
{
    match c {
        ColumnView::Function(f, arg) => {
            lemma_column_len(*arg);
        },
        _ => {},
    }
}

/// The decimal form of a number is made of digits that write the number.
pub proof fn lemma_decimal_digits(n: nat)
    ensures
        decimal(n).len() >= 1,
        all_digits(decimal(n)),
        digits_value(decimal(n)) == n,
    decreases n,
{
    if n < 10 {
        let s = decimal(n);
        assert(s.drop_last() =~= Seq::<char>::empty());
        assert(digits_value(s.drop_last()) == 0);
        assert(s.last() == digit_char(n));
    } else {
        lemma_decimal_digits(n / 10);
        let s = decimal(n);
        assert(s.drop_last() =~= decimal(n / 10));
        assert(s.last() == digit_char(n % 10));
        assert forall|i: int| 0 <= i < s.len() implies is_digit(#[trigger] s[i]) by {
            if i < s.len() - 1 {
                assert(s[i] == decimal(n / 10)[i]);
            }
        }
    }
}

/// Reading the decimal form of a number gives the number back.
pub proof fn lemma_decimal_round_trip(n: nat, max: nat)
    requires
        n <= max,
    ensures
        parse_unsigned(decimal(n), max) == Some(n),
{
    lemma_decimal_digits(n);
    assert(is_digit(decimal(n)[0]));
}

/// What the words of the language hold.
pub proof fn reveal_keywords()
    ensures
        "from"@ == seq!['f', 'r', 'o', 'm'],
        "where"@ == seq!['w', 'h', 'e', 'r', 'e'],
        "order"@ == seq!['o', 'r', 'd', 'e', 'r'],
        "by"@ == seq!['b', 'y'],
        "limit"@ == seq!['l', 'i', 'm', 'i', 't'],
        "into"@ == seq!['i', 'n', 't', 'o'],
        "asc"@ == seq!['a', 's', 'c'],
        "desc"@ == seq!['d', 'e', 's', 'c'],
        "and"@ == seq!['a', 'n', 'd'],
        "or"@ == seq!['o', 'r'],
        "depth"@ == seq!['d', 'e', 'p', 't', 'h'],
        "maxdepth"@ == seq!['m', 'a', 'x', 'd', 'e', 'p', 't', 'h'],
        "mindepth"@ == seq!['m', 'i', 'n', 'd', 'e', 'p', 't', 'h'],
        "archives"@ == seq!['a', 'r', 'c', 'h', 'i', 'v', 'e', 's'],
        "symlinks"@ == seq!['s', 'y', 'm', 'l', 'i', 'n', 'k', 's'],
        "gitignore"@ == seq!['g', 'i', 't', 'i', 'g', 'n', 'o', 'r', 'e'],
{
    reveal_strlit("from");
    reveal_strlit("where");
    reveal_strlit("order");
    reveal_strlit("by");
    reveal_strlit("limit");
    reveal_strlit("into");
    reveal_strlit("asc");
    reveal_strlit("desc");
    reveal_strlit("and");
    reveal_strlit("or");
    reveal_strlit("depth");
    reveal_strlit("maxdepth");
    reveal_strlit("mindepth");
    reveal_strlit("archives");
    reveal_strlit("symlinks");
    reveal_strlit("gitignore");
    assert("from"@ =~= seq!['f', 'r', 'o', 'm']);
    assert("where"@ =~= seq!['w', 'h', 'e', 'r', 'e']);
    assert("order"@ =~= seq!['o', 'r', 'd', 'e', 'r']);
    assert("by"@ =~= seq!['b', 'y']);
    assert("limit"@ =~= seq!['l', 'i', 'm', 'i', 't']);
    assert("into"@ =~= seq!['i', 'n', 't', 'o']);
    assert("asc"@ =~= seq!['a', 's', 'c']);
    assert("desc"@ =~= seq!['d', 'e', 's', 'c']);
    assert("and"@ =~= seq!['a', 'n', 'd']);
    assert("or"@ =~= seq!['o', 'r']);
    assert("depth"@ =~= seq!['d', 'e', 'p', 't', 'h']);
    assert("maxdepth"@ =~= seq!['m', 'a', 'x', 'd', 'e', 'p', 't', 'h']);
    assert("mindepth"@ =~= seq!['m', 'i', 'n', 'd', 'e', 'p', 't', 'h']);
    assert("archives"@ =~= seq!['a', 'r', 'c', 'h', 'i', 'v', 'e', 's']);
    assert("symlinks"@ =~= seq!['s', 'y', 'm', 'l', 'i', 'n', 'k', 's']);
    assert("gitignore"@ =~= seq!['g', 'i', 't', 'i', 'g', 'n', 'o', 'r', 'e']);
}

/// Whether a token is one of the words that end a list: a word that
/// begins a clause, or nothing of a list at all.
pub open spec fn is_clause_word(t: Token) -> bool {
    is_keyword(t, "from"@) || is_keyword(t, "where"@) || is_keyword(t, "order"@) || is_keyword(
        t,
        "limit"@,
    ) || is_keyword(t, "into"@)
}

/// Whether the part of a query that ends at `end` is followed by the
/// start of a clause or by nothing.
pub open spec fn ends_part(ts: Seq<Token>, end: int) -> bool {
    end >= ts.len() || is_clause_word(ts[end])
}

/// A word that begins a clause is none of the other words of the
/// language.
pub proof fn lemma_clause_word(t: Token)
    requires
        is_clause_word(t),
    ensures
        !(t is Open),
        !(t is Comma),
        !(t is Close),
        !is_keyword(t, "asc"@),
        !is_keyword(t, "desc"@),
        !is_keyword(t, "and"@),
        !is_keyword(t, "or"@),
        !is_keyword(t, "depth"@),
        !is_keyword(t, "maxdepth"@),
        !is_keyword(t, "mindepth"@),
        !is_keyword(t, "archives"@),
        !is_keyword(t, "symlinks"@),
        !is_keyword(t, "gitignore"@),
{
    reveal_keywords();
    assert("from"@.len() == 4 && "where"@.len() == 5 && "order"@.len() == 5 && "limit"@.len() == 5
        && "into"@.len() == 4);
    assert("or"@.len() == 2 && "and"@.len() == 3 && "asc"@.len() == 3 && "desc"@.len() == 4);
    assert("from"@[0] == 'f' && "into"@[0] == 'i' && "desc"@[0] == 'd');
    assert("where"@[0] == 'w' && "order"@[0] == 'o' && "limit"@[0] == 'l' && "depth"@[0] == 'd');
}

/// The tokens that write sort keys down: each column, with `desc` behind
/// it where larger values come first.
pub open spec fn order_tokens(cs: Seq<ColumnView>, asc: Seq<bool>) -> Seq<Token>
    decreases cs.len(),
{
    if cs.len() == 0 || asc.len() != cs.len() {
        Seq::empty()
    } else {
        let first = column_tokens(cs[0]) + if asc[0] {
            Seq::<Token>::empty()
        } else {
            seq![Token::Raw("desc"@)]
        };
        if cs.len() == 1 {
            first
        } else {
            first + seq![Token::Comma] + order_tokens(cs.drop_first(), asc.drop_first())
        }
    }
}

/// Reading sort keys that were written down gives them back.
pub proof fn lemma_order_round_trip(ts: Seq<Token>, pos: int, cs: Seq<ColumnView>, asc: Seq<bool>)
    requires
        cs.len() >= 1,
        cs.len() == asc.len(),
        has_at(ts, pos, order_tokens(cs, asc)),
        ends_part(ts, pos + order_tokens(cs, asc).len()),
    ensures
        order_at(ts, pos) == Ok::<(Seq<ColumnView>, Seq<bool>, int), ParseError>(
            (cs, asc, pos + order_tokens(cs, asc).len()),
        ),
    decreases cs.len(),
{
    reveal_keywords();
    let col = column_tokens(cs[0]);
    let mark = if asc[0] {
        Seq::<Token>::empty()
    } else {
        seq![Token::Raw("desc"@)]
    };
    let first = col + mark;
    let end = pos + order_tokens(cs, asc).len();
    lemma_column_len(cs[0]);
    if end < ts.len() {
        lemma_clause_word(ts[end]);
    }
    if cs.len() == 1 {
        lemma_has_at_split(ts, pos, col, mark);
        if !asc[0] {
            lemma_has_at_index(ts, pos + col.len(), mark, 0);
            lemma_lower_is_fixed("desc"@);
        }
        lemma_column_round_trip(ts, pos, cs[0]);
        assert(seq![cs[0]] =~= cs);
        assert(seq![asc[0]] =~= asc);
    } else {
        let rest = order_tokens(cs.drop_first(), asc.drop_first());
        assert(order_tokens(cs, asc) =~= col + (mark + (seq![Token::Comma] + rest)));
        lemma_has_at_split(ts, pos, col, mark + (seq![Token::Comma] + rest));
        lemma_has_at_split(ts, pos + col.len(), mark, seq![Token::Comma] + rest);
        lemma_has_at_split(ts, pos + col.len() + mark.len(), seq![Token::Comma], rest);
        lemma_has_at_index(ts, pos + col.len() + mark.len(), seq![Token::Comma], 0);
        if !asc[0] {
            lemma_has_at_index(ts, pos + col.len(), mark, 0);
            lemma_lower_is_fixed("desc"@);
        }
        lemma_column_round_trip(ts, pos, cs[0]);
        lemma_order_round_trip(
            ts,
            pos + col.len() + mark.len() + 1,
            cs.drop_first(),
            asc.drop_first(),
        );
        assert(seq![cs[0]] + cs.drop_first() =~= cs);
        assert(seq![asc[0]] + asc.drop_first() =~= asc);
    }
}

/// Reading a number that was written down gives it back.
pub proof fn lemma_number_round_trip(ts: Seq<Token>, pos: int, n: u32)
    requires
        0 <= pos < ts.len(),
        ts[pos] == Token::Raw(decimal(n as nat)),
    ensures
        number_at(ts, pos) == Ok::<u32, ParseError>(n),
{
    lemma_decimal_round_trip(n as nat, u32::MAX as nat);
}

/// The tokens that switch on what a root asks for.
pub open spec fn flag_tokens(r: RootView) -> Seq<Token> {
    (if r.archives {
        seq![Token::Raw("archives"@)]
    } else {
        Seq::<Token>::empty()
    }) + (if r.symlinks {
        seq![Token::Raw("symlinks"@)]
    } else {
        Seq::<Token>::empty()
    }) + (if r.gitignore {
        seq![Token::Raw("gitignore"@)]
    } else {
        Seq::<Token>::empty()
    })
}

/// The tokens that write a root down: its path in quotes, its first and
/// last level, and what it asks for.
pub open spec fn root_tokens(r: RootView) -> Seq<Token> {
    seq![
        Token::Quoted(r.path),
        Token::Raw("mindepth"@),
        Token::Raw(decimal(r.min_depth as nat)),
        Token::Raw("maxdepth"@),
        Token::Raw(decimal(r.max_depth as nat)),
    ] + flag_tokens(r)
}

/// The tokens that write roots down, with commas between them.
pub open spec fn roots_tokens(rs: Seq<RootView>) -> Seq<Token>
    decreases rs.len(),
{
    if rs.len() == 0 {
        Seq::empty()
    } else if rs.len() == 1 {
        root_tokens(rs[0])
    } else {
        root_tokens(rs[0]) + seq![Token::Comma] + roots_tokens(rs.drop_first())
    }
}

/// A token that is no word of an option ends the options of a root.
pub proof fn lemma_options_end(ts: Seq<Token>, pos: int, root: RootView)
    requires
        pos >= ts.len() || ts[pos] is Comma || is_clause_word(ts[pos]),
    ensures
        options_at(ts, pos, root) == Ok::<(RootView, int), ParseError>((root, pos)),
{
    if 0 <= pos < ts.len() && !(ts[pos] is Comma) {
        lemma_clause_word(ts[pos]);
    }
}

/// Reading the flags of a root that were written down sets them.
pub proof fn lemma_flags_round_trip(ts: Seq<Token>, pos: int, base: RootView, r: RootView)
    requires
        !base.archives && !base.symlinks && !base.gitignore,
        r == (RootView {
            archives: r.archives,
            symlinks: r.symlinks,
            gitignore: r.gitignore,
            ..base
        }),
        has_at(ts, pos, flag_tokens(r)),
        ({
            let end = pos + flag_tokens(r).len();
            end >= ts.len() || ts[end] is Comma || is_clause_word(ts[end])
        }),
    ensures
        options_at(ts, pos, base) == Ok::<(RootView, int), ParseError>(
            (r, pos + flag_tokens(r).len()),
        ),
{
    reveal_keywords();
    lemma_lower_is_fixed("archives"@);
    lemma_lower_is_fixed("symlinks"@);
    lemma_lower_is_fixed("gitignore"@);
    let a = if r.archives {
        seq![Token::Raw("archives"@)]
    } else {
        Seq::<Token>::empty()
    };
    let s = if r.symlinks {
        seq![Token::Raw("symlinks"@)]
    } else {
        Seq::<Token>::empty()
    };
    let g = if r.gitignore {
        seq![Token::Raw("gitignore"@)]
    } else {
        Seq::<Token>::empty()
    };
    assert(flag_tokens(r) =~= a + (s + g));
    lemma_has_at_split(ts, pos, a, s + g);
    lemma_has_at_split(ts, pos + a.len(), s, g);
    let after_archives = pos + a.len();
    let after_symlinks = after_archives + s.len();
    let after_flags = after_symlinks + g.len();
    let with_archives = RootView { archives: r.archives, ..base };
    let with_symlinks = RootView { symlinks: r.symlinks, ..with_archives };
    lemma_options_end(ts, after_flags, r);
    if r.gitignore {
        lemma_has_at_index(ts, after_symlinks, g, 0);
        assert(options_at(ts, after_symlinks, with_symlinks) == options_at(ts, after_flags, r));
    }
    assert(options_at(ts, after_symlinks, with_symlinks) == Ok::<(RootView, int), ParseError>((r, after_flags)));
    if r.symlinks {
        lemma_has_at_index(ts, after_archives, s, 0);
        assert(options_at(ts, after_archives, with_archives) == options_at(ts, after_symlinks, with_symlinks));
    }
    assert(options_at(ts, after_archives, with_archives) == Ok::<(RootView, int), ParseError>((r, after_flags)));
    if r.archives {
        lemma_has_at_index(ts, pos, a, 0);
        assert(options_at(ts, pos, base) == options_at(ts, after_archives, with_archives));
    }
}

/// Reading a root that was written down gives it back.
pub proof fn lemma_root_round_trip(ts: Seq<Token>, pos: int, r: RootView)
    requires
        has_at(ts, pos, root_tokens(r)),
        ({
            let end = pos + root_tokens(r).len();
            end >= ts.len() || ts[end] is Comma || is_clause_word(ts[end])
        }),
    ensures
        text_of(ts[pos]) == Some(r.path),
        options_at(ts, pos + 1, RootView { path: r.path, ..default_root() }) == Ok::<
            (RootView, int),
            ParseError,
        >((r, pos + root_tokens(r).len())),
{
    reveal_keywords();
    lemma_lower_is_fixed("mindepth"@);
    lemma_lower_is_fixed("maxdepth"@);
    let head = seq![
        Token::Quoted(r.path),
        Token::Raw("mindepth"@),
        Token::Raw(decimal(r.min_depth as nat)),
        Token::Raw("maxdepth"@),
        Token::Raw(decimal(r.max_depth as nat)),
    ];
    lemma_has_at_split(ts, pos, head, flag_tokens(r));
    lemma_has_at_index(ts, pos, head, 0);
    lemma_has_at_index(ts, pos, head, 1);
    lemma_has_at_index(ts, pos, head, 2);
    lemma_has_at_index(ts, pos, head, 3);
    lemma_has_at_index(ts, pos, head, 4);
    lemma_number_round_trip(ts, pos + 2, r.min_depth);
    lemma_number_round_trip(ts, pos + 4, r.max_depth);
    let bare = RootView { path: r.path, ..default_root() };
    let with_min = RootView { min_depth: r.min_depth, ..bare };
    let with_max = RootView { max_depth: r.max_depth, ..with_min };
    lemma_flags_round_trip(ts, pos + 5, with_max, r);
    assert(option_at(ts, pos + 3) == Ok::<Option<(RootOption, int)>, ParseError>(
        Some((RootOption::MaxDepth(r.max_depth), pos + 5)),
    ));
    assert(options_at(ts, pos + 3, with_min) == options_at(ts, pos + 5, with_max));
    assert(option_at(ts, pos + 1) == Ok::<Option<(RootOption, int)>, ParseError>(
        Some((RootOption::MinDepth(r.min_depth), pos + 3)),
    ));
    assert(options_at(ts, pos + 1, bare) == options_at(ts, pos + 3, with_min));
}

/// Reading roots that were written down gives them back.
pub proof fn lemma_roots_round_trip(ts: Seq<Token>, pos: int, rs: Seq<RootView>)
    requires
        rs.len() >= 1,
        has_at(ts, pos, roots_tokens(rs)),
        ends_part(ts, pos + roots_tokens(rs).len()),
    ensures
        roots_at(ts, pos) == Ok::<(Seq<RootView>, int), ParseError>(
            (rs, pos + roots_tokens(rs).len()),
        ),
    decreases rs.len(),
{
    let first = root_tokens(rs[0]);
    let end = pos + roots_tokens(rs).len();
    if end < ts.len() {
        lemma_clause_word(ts[end]);
    }
    if rs.len() == 1 {
        lemma_root_round_trip(ts, pos, rs[0]);
        assert(seq![rs[0]] =~= rs);
    } else {
        let rest = roots_tokens(rs.drop_first());
        assert(roots_tokens(rs) =~= first + (seq![Token::Comma] + rest));
        lemma_has_at_split(ts, pos, first, seq![Token::Comma] + rest);
        lemma_has_at_split(ts, pos + first.len(), seq![Token::Comma], rest);
        lemma_has_at_index(ts, pos + first.len(), seq![Token::Comma], 0);
        lemma_root_round_trip(ts, pos, rs[0]);
        lemma_roots_round_trip(ts, pos + first.len() + 1, rs.drop_first());
        assert(seq![rs[0]] + rs.drop_first() =~= rs);
    }
}

/// The token that writes a comparison down.
pub open spec fn op_token(op: Op) -> Token {
    match op {
        Op::Eq => Token::Operator("="@),
        Op::Ne => Token::Operator("!="@),
        Op::Eeq => Token::Operator("==="@),
        Op::Ene => Token::Operator("!=="@),
        Op::Gt => Token::Operator(">"@),
        Op::Gte => Token::Operator(">="@),
        Op::Lt => Token::Operator("<"@),
        Op::Lte => Token::Operator("<="@),
        Op::Rx => Token::Operator("~="@),
        Op::Like => Token::Raw("like"@),
    }
}

/// The word that joins two conditions.
pub open spec fn logical_word(op: LogicalOp) -> Seq<char> {
    match op {
        LogicalOp::And => "and"@,
        LogicalOp::Or => "or"@,
    }
}

/// The word that names a format.
pub open spec fn format_word(format: OutputFormat) -> Seq<char> {
    match format {
        OutputFormat::Tabs => "tabs"@,
        OutputFormat::Lines => "lines"@,
        OutputFormat::List => "list"@,
        OutputFormat::Csv => "csv"@,
        OutputFormat::Json => "json"@,
    }
}

/// A condition in brackets, unless it is a single comparison.
pub open spec fn wrapped(e: ExprView, inner: Seq<Token>) -> Seq<Token> {
    match e {
        ExprView::Leaf { .. } => inner,
        ExprView::Node { .. } => seq![Token::Open] + inner + seq![Token::Close],
    }
}

/// The tokens that write a condition down: a comparison as its field, its
/// operator and its value in quotes; two joined conditions with the joining
/// word between them, each in brackets unless it is a single comparison.
pub open spec fn expr_tokens(e: ExprView) -> Seq<Token>
    decreases e,
{
    match e {
        ExprView::Leaf { field, op, val, regex, range } => seq![
            Token::Raw(field.label()),
            op_token(op),
            Token::Quoted(val),
        ],
        ExprView::Node { logical_op, left, right } => wrapped(*left, expr_tokens(*left)) + seq![
            Token::Raw(logical_word(logical_op)),
        ] + wrapped(*right, expr_tokens(*right)),
    }
}

/// What the operators and the names of the formats hold.
pub proof fn reveal_operators()
    ensures
        "="@ == seq!['='],
        "=="@ == seq!['=', '='],
        "eq"@ == seq!['e', 'q'],
        "!="@ == seq!['!', '='],
        "<>"@ == seq!['<', '>'],
        "ne"@ == seq!['n', 'e'],
        "==="@ == seq!['=', '=', '='],
        "eeq"@ == seq!['e', 'e', 'q'],
        "!=="@ == seq!['!', '=', '='],
        "ene"@ == seq!['e', 'n', 'e'],
        ">"@ == seq!['>'],
        "gt"@ == seq!['g', 't'],
        ">="@ == seq!['>', '='],
        "gte"@ == seq!['g', 't', 'e'],
        "ge"@ == seq!['g', 'e'],
        "<"@ == seq!['<'],
        "lt"@ == seq!['l', 't'],
        "<="@ == seq!['<', '='],
        "lte"@ == seq!['l', 't', 'e'],
        "le"@ == seq!['l', 'e'],
        "~="@ == seq!['~', '='],
        "=~"@ == seq!['=', '~'],
        "regexp"@ == seq!['r', 'e', 'g', 'e', 'x', 'p'],
        "rx"@ == seq!['r', 'x'],
        "like"@ == seq!['l', 'i', 'k', 'e'],
        "tabs"@ == seq!['t', 'a', 'b', 's'],
        "lines"@ == seq!['l', 'i', 'n', 'e', 's'],
        "list"@ == seq!['l', 'i', 's', 't'],
        "csv"@ == seq!['c', 's', 'v'],
        "json"@ == seq!['j', 's', 'o', 'n'],
{
    reveal_strlit("=");
    reveal_strlit("==");
    reveal_strlit("eq");
    reveal_strlit("!=");
    reveal_strlit("<>");
    reveal_strlit("ne");
    reveal_strlit("===");
    reveal_strlit("eeq");
    reveal_strlit("!==");
    reveal_strlit("ene");
    reveal_strlit(">");
    reveal_strlit("gt");
    reveal_strlit(">=");
    reveal_strlit("gte");
    reveal_strlit("ge");
    reveal_strlit("<");
    reveal_strlit("lt");
    reveal_strlit("<=");
    reveal_strlit("lte");
    reveal_strlit("le");
    reveal_strlit("~=");
    reveal_strlit("=~");
    reveal_strlit("regexp");
    reveal_strlit("rx");
    reveal_strlit("like");
    reveal_strlit("tabs");
    reveal_strlit("lines");
    reveal_strlit("list");
    reveal_strlit("csv");
    reveal_strlit("json");
    assert("="@ =~= seq!['=']);
    assert("=="@ =~= seq!['=', '=']);
    assert("eq"@ =~= seq!['e', 'q']);
    assert("!="@ =~= seq!['!', '=']);
    assert("<>"@ =~= seq!['<', '>']);
    assert("ne"@ =~= seq!['n', 'e']);
    assert("==="@ =~= seq!['=', '=', '=']);
    assert("eeq"@ =~= seq!['e', 'e', 'q']);
    assert("!=="@ =~= seq!['!', '=', '=']);
    assert("ene"@ =~= seq!['e', 'n', 'e']);
    assert(">"@ =~= seq!['>']);
    assert("gt"@ =~= seq!['g', 't']);
    assert(">="@ =~= seq!['>', '=']);
    assert("gte"@ =~= seq!['g', 't', 'e']);
    assert("ge"@ =~= seq!['g', 'e']);
    assert("<"@ =~= seq!['<']);
    assert("lt"@ =~= seq!['l', 't']);
    assert("<="@ =~= seq!['<', '=']);
    assert("lte"@ =~= seq!['l', 't', 'e']);
    assert("le"@ =~= seq!['l', 'e']);
    assert("~="@ =~= seq!['~', '=']);
    assert("=~"@ =~= seq!['=', '~']);
    assert("regexp"@ =~= seq!['r', 'e', 'g', 'e', 'x', 'p']);
    assert("rx"@ =~= seq!['r', 'x']);
    assert("like"@ =~= seq!['l', 'i', 'k', 'e']);
    assert("tabs"@ =~= seq!['t', 'a', 'b', 's']);
    assert("lines"@ =~= seq!['l', 'i', 'n', 'e', 's']);
    assert("list"@ =~= seq!['l', 'i', 's', 't']);
    assert("csv"@ =~= seq!['c', 's', 'v']);
    assert("json"@ =~= seq!['j', 's', 'o', 'n']);
}

/// The text of the token of a comparison.
pub open spec fn op_text(op: Op) -> Seq<char> {
    match op_token(op) {
        Token::Operator(s) => s,
        Token::Raw(s) => s,
        _ => Seq::empty(),
    }
}

/// The token of a comparison names the comparison.
pub proof fn lemma_op_token_names_it(op: Op)
    ensures
        Op::named(op_text(op)) == Some(op),
{
    reveal_operators();
    lemma_lower_is_fixed(op_text(op));
    let key = op_text(op);
    assert("="@.len() == 1 && "=="@.len() == 2 && "eq"@.len() == 2 && "!="@.len() == 2
        && "<>"@.len() == 2 && "ne"@.len() == 2 && "==="@.len() == 3 && "eeq"@.len() == 3
        && "!=="@.len() == 3 && "ene"@.len() == 3);
    assert(">"@.len() == 1 && "gt"@.len() == 2 && ">="@.len() == 2 && "gte"@.len() == 3
        && "ge"@.len() == 2 && "<"@.len() == 1 && "lt"@.len() == 2 && "<="@.len() == 2
        && "lte"@.len() == 3 && "le"@.len() == 2);
    assert("~="@.len() == 2 && "=~"@.len() == 2 && "regexp"@.len() == 6 && "rx"@.len() == 2
        && "like"@.len() == 4);
    assert("="@[0] == '=' && "=="@[0] == '=' && "eq"@[0] == 'e' && "!="@[0] == '!' && "<>"@[0]
        == '<' && "ne"@[0] == 'n' && "==="@[0] == '=' && "eeq"@[0] == 'e' && "!=="@[0] == '!'
        && "ene"@[0] == 'e');
    assert(">"@[0] == '>' && "gt"@[0] == 'g' && ">="@[0] == '>' && "gte"@[0] == 'g' && "ge"@[0]
        == 'g' && "<"@[0] == '<' && "lt"@[0] == 'l' && "<="@[0] == '<' && "lte"@[0] == 'l'
        && "le"@[0] == 'l');
    assert("~="@[0] == '~' && "=~"@[0] == '=' && "regexp"@[0] == 'r' && "rx"@[0] == 'r'
        && "like"@[0] == 'l');
    assert("=="@[1] == '=' && "=~"@[1] == '~' && "<>"@[1] == '>' && "<="@[1] == '=' && "lt"@[1]
        == 't' && "le"@[1] == 'e' && "like"@[1] == 'i');
    match op {
        Op::Eq => {},
        Op::Ne => {},
        Op::Eeq => {},
        Op::Ene => {},
        Op::Gt => {},
        Op::Gte => {},
        Op::Lt => {},
        Op::Lte => {},
        Op::Rx => {},
        Op::Like => {},
    }
}

/// The word of a format names the format.
pub proof fn lemma_format_word_names_it(format: OutputFormat)
    ensures
        OutputFormat::named(format_word(format)) == Some(format),
{
    reveal_operators();
    lemma_lower_is_fixed(format_word(format));
}

/// A condition is written with one token at least.
pub proof fn lemma_expr_len(e: ExprView)
    ensures
        expr_tokens(e).len() >= 3,
        wrapped(e, expr_tokens(e)).len() >= 3,
    decreases e,
{
    match e {
        ExprView::Leaf { .. } => {},
        ExprView::Node { logical_op, left, right } => {
            lemma_expr_len(*left);
            lemma_expr_len(*right);
        },
    }
}

/// Whether the condition that ends at `end` is followed by a closing
/// bracket, by the start of a clause or by nothing.
pub open spec fn ends_expr(ts: Seq<Token>, end: int) -> bool {
    end >= ts.len() || ts[end] is Close || is_clause_word(ts[end])
}

/// Reading a condition that was written down gives the condition back:
/// read as a factor where it stands as one, in brackets if it is no single
/// comparison, and read as a whole condition otherwise.
pub proof fn lemma_expr_round_trip(ts: Seq<Token>, pos: int, e: ExprView, factor: bool)
    requires
        as_parsed(e),
        factor ==> has_at(ts, pos, wrapped(e, expr_tokens(e))),
        !factor ==> has_at(ts, pos, expr_tokens(e)) && ends_expr(ts, pos + expr_tokens(e).len()),
    ensures
        factor ==> expr_at(ts, pos, 0) == Ok::<(ExprView, int), ParseError>(
            (e, pos + wrapped(e, expr_tokens(e)).len()),
        ),
        !factor ==> expr_at(ts, pos, 2) == Ok::<(ExprView, int), ParseError>(
            (e, pos + expr_tokens(e).len()),
        ),
    decreases e, (if factor { 1int } else { 0int }),
{
    reveal_keywords();
    lemma_lower_is_fixed("and"@);
    lemma_lower_is_fixed("or"@);
    let inner = expr_tokens(e);
    lemma_expr_len(e);
    match e {
        ExprView::Leaf { field, op, val, regex, range } => {
            lemma_has_at_index(ts, pos, inner, 0);
            lemma_has_at_index(ts, pos, inner, 1);
            lemma_has_at_index(ts, pos, inner, 2);
            lemma_field_label_names_it(field);
            lemma_op_token_names_it(op);
            assert(predicate_at(ts, pos) == Ok::<(ExprView, int), ParseError>((e, pos + 3)));
            assert(expr_at(ts, pos, 0) == Ok::<(ExprView, int), ParseError>((e, pos + 3)));
            if !factor {
                let end = pos + 3;
                if end < ts.len() && !(ts[end] is Close) {
                    lemma_clause_word(ts[end]);
                }
                assert(expr_at(ts, pos, 1) == Ok::<(ExprView, int), ParseError>((e, pos + 3)));
            }
        },
        ExprView::Node { logical_op, left, right } => {
            if factor {
                let whole = wrapped(e, inner);
                assert(whole =~= seq![Token::Open] + (inner + seq![Token::Close]));
                lemma_has_at_split(ts, pos, seq![Token::Open], inner + seq![Token::Close]);
                lemma_has_at_split(ts, pos + 1, inner, seq![Token::Close]);
                lemma_has_at_index(ts, pos, seq![Token::Open], 0);
                lemma_has_at_index(ts, pos + 1 + inner.len(), seq![Token::Close], 0);
                lemma_expr_round_trip(ts, pos + 1, e, false);
            } else {
                let l = wrapped(*left, expr_tokens(*left));
                let r = wrapped(*right, expr_tokens(*right));
                let word = seq![Token::Raw(logical_word(logical_op))];
                lemma_expr_len(*left);
                lemma_expr_len(*right);
                assert(inner =~= l + (word + r));
                lemma_has_at_split(ts, pos, l, word + r);
                lemma_has_at_split(ts, pos + l.len(), word, r);
                lemma_has_at_index(ts, pos + l.len(), word, 0);
                let mid = pos + l.len();
                let end = mid + 1 + r.len();
                lemma_expr_round_trip(ts, pos, *left, true);
                lemma_expr_round_trip(ts, mid + 1, *right, true);
                if end < ts.len() && !(ts[end] is Close) {
                    lemma_clause_word(ts[end]);
                }
                assert("and"@.len() == 3 && "or"@.len() == 2);
                assert(expr_at(ts, mid + 1, 1) == Ok::<(ExprView, int), ParseError>(
                    (*right, end),
                ));
                match logical_op {
                    LogicalOp::And => {
                        assert(keyword_at(ts, mid, "and"@));
                        assert(expr_at(ts, pos, 1) == Ok::<(ExprView, int), ParseError>((e, end)));
                    },
                    LogicalOp::Or => {
                        assert(!keyword_at(ts, mid, "and"@));
                        assert(keyword_at(ts, mid, "or"@));
                        assert(expr_at(ts, pos, 1) == Ok::<(ExprView, int), ParseError>(
                            (*left, mid),
                        ));
                        assert(expr_at(ts, mid + 1, 2) == Ok::<(ExprView, int), ParseError>(
                            (*right, end),
                        ));
                    },
                }
            }
        },
    }
}

/// The tokens of the condition of a query, with `where` before them.
pub open spec fn where_tokens(expr: Option<ExprView>) -> Seq<Token> {
    match expr {
        Some(e) => seq![Token::Raw("where"@)] + expr_tokens(e),
        None => Seq::empty(),
    }
}

/// The tokens of the ordering of a query, with `order by` before them.
pub open spec fn order_clause_tokens(cs: Seq<ColumnView>, asc: Seq<bool>) -> Seq<Token> {
    if cs.len() == 0 {
        Seq::empty()
    } else {
        seq![Token::Raw("order"@), Token::Raw("by"@)] + order_tokens(cs, asc)
    }
}

/// The tokens of the limit and of the format of a query.
pub open spec fn tail_tokens(limit: u32, format: OutputFormat) -> Seq<Token> {
    seq![
        Token::Raw("limit"@),
        Token::Raw(decimal(limit as nat)),
        Token::Raw("into"@),
        Token::Raw(format_word(format)),
    ]
}

/// The tokens that write a query down: the columns, then each clause, the
/// condition and the ordering only where the query has one.
pub open spec fn query_tokens(q: QueryView) -> Seq<Token> {
    columns_tokens(q.fields) + seq![Token::Raw("from"@)] + roots_tokens(q.roots) + where_tokens(
        q.expr,
    ) + order_clause_tokens(q.ordering_fields, q.ordering_asc) + tail_tokens(
        q.limit,
        q.output_format,
    )
}

/// `from` is the word `from`.
pub proof fn lemma_word_from(t: Token)
    requires
        t == Token::Raw("from"@),
    ensures
        is_keyword(t, "from"@),
        is_clause_word(t),
{
    reveal_keywords();
    lemma_lower_is_fixed("from"@);
}

/// `where` is the word `where` and no word that is looked for before it.
pub proof fn lemma_word_where(t: Token)
    requires
        t == Token::Raw("where"@),
    ensures
        is_keyword(t, "where"@),
        !is_keyword(t, "from"@),
        is_clause_word(t),
{
    reveal_keywords();
    lemma_lower_is_fixed("where"@);
    assert("from"@.len() == 4 && "where"@.len() == 5);
}

/// `order` is the word `order` and no word that is looked for before it.
pub proof fn lemma_word_order(t: Token)
    requires
        t == Token::Raw("order"@),
    ensures
        is_keyword(t, "order"@),
        !is_keyword(t, "from"@),
        !is_keyword(t, "where"@),
        is_clause_word(t),
{
    reveal_keywords();
    lemma_lower_is_fixed("order"@);
    assert("from"@.len() == 4 && "where"@.len() == 5 && "order"@.len() == 5);
    assert("where"@[0] == 'w' && "order"@[0] == 'o');
}

/// `by` is the word `by`.
pub proof fn lemma_word_by(t: Token)
    requires
        t == Token::Raw("by"@),
    ensures
        is_keyword(t, "by"@),
{
    reveal_keywords();
    lemma_lower_is_fixed("by"@);
}

/// `limit` is the word `limit` and no word that is looked for before it.
pub proof fn lemma_word_limit(t: Token)
    requires
        t == Token::Raw("limit"@),
    ensures
        is_keyword(t, "limit"@),
        !is_keyword(t, "from"@),
        !is_keyword(t, "where"@),
        !is_keyword(t, "order"@),
        is_clause_word(t),
{
    reveal_keywords();
    lemma_lower_is_fixed("limit"@);
    assert("from"@.len() == 4 && "where"@.len() == 5 && "order"@.len() == 5 && "limit"@.len()
        == 5);
    assert("where"@[0] == 'w' && "order"@[0] == 'o' && "limit"@[0] == 'l');
}

/// `into` is the word `into` and no word that is looked for before it.
pub proof fn lemma_word_into(t: Token)
    requires
        t == Token::Raw("into"@),
    ensures
        is_keyword(t, "into"@),
        !is_keyword(t, "from"@),
        !is_keyword(t, "where"@),
        !is_keyword(t, "order"@),
        !is_keyword(t, "limit"@),
{
    reveal_keywords();
    lemma_lower_is_fixed("into"@);
    assert("from"@.len() == 4 && "where"@.len() == 5 && "order"@.len() == 5 && "limit"@.len() == 5
        && "into"@.len() == 4);
    assert("from"@[0] == 'f' && "into"@[0] == 'i');
}

/// Reading the limit and the format that were written down sets them.
pub proof fn lemma_tail_round_trip(ts: Seq<Token>, pos: int, q: QueryView, done: QueryView)
    requires
        has_at(ts, pos, tail_tokens(done.limit, done.output_format)),
        pos + 4 == ts.len(),
        done == (QueryView { limit: done.limit, output_format: done.output_format, ..q }),
    ensures
        clauses_at(ts, pos, q) == Ok::<QueryView, ParseError>(done),
        is_clause_word(ts[pos]),
{
    let tail = tail_tokens(done.limit, done.output_format);
    lemma_has_at_index(ts, pos, tail, 0);
    lemma_has_at_index(ts, pos, tail, 1);
    lemma_has_at_index(ts, pos, tail, 2);
    lemma_has_at_index(ts, pos, tail, 3);
    lemma_word_limit(ts[pos]);
    lemma_word_into(ts[pos + 2]);
    lemma_number_round_trip(ts, pos + 1, done.limit);
    lemma_format_word_names_it(done.output_format);
    let limited = QueryView { limit: done.limit, ..q };
    assert(clauses_at(ts, pos + 4, done) == Ok::<QueryView, ParseError>(done));
    assert(text_of(ts[pos + 3]) == Some(format_word(done.output_format)));
    assert(clauses_at(ts, pos + 2, limited) == clauses_at(ts, pos + 4, done));
    assert(clauses_at(ts, pos, q) == clauses_at(ts, pos + 2, limited));
}

/// Reading the ordering that was written down sets it.
pub proof fn lemma_order_clause_round_trip(
    ts: Seq<Token>,
    pos: int,
    q: QueryView,
    cs: Seq<ColumnView>,
    asc: Seq<bool>,
)
    requires
        cs.len() == asc.len(),
        has_at(ts, pos, order_clause_tokens(cs, asc)),
        pos + order_clause_tokens(cs, asc).len() < ts.len(),
        is_clause_word(ts[pos + order_clause_tokens(cs, asc).len()]),
        cs.len() == 0 ==> q.ordering_fields.len() == 0 && q.ordering_asc.len() == 0,
    ensures
        clauses_at(ts, pos, q) == clauses_at(
            ts,
            pos + order_clause_tokens(cs, asc).len(),
            QueryView { ordering_fields: cs, ordering_asc: asc, ..q },
        ),
        is_clause_word(ts[pos]),
{
    if cs.len() > 0 {
        let keys = order_tokens(cs, asc);
        let head = seq![Token::Raw("order"@), Token::Raw("by"@)];
        lemma_has_at_split(ts, pos, head, keys);
        lemma_has_at_index(ts, pos, head, 0);
        lemma_has_at_index(ts, pos, head, 1);
        lemma_word_order(ts[pos]);
        lemma_word_by(ts[pos + 1]);
        lemma_order_round_trip(ts, pos + 2, cs, asc);
        lemma_column_len(cs[0]);
    } else {
        assert(q.ordering_fields =~= cs);
        assert(q.ordering_asc =~= asc);
        assert(q =~= (QueryView { ordering_fields: cs, ordering_asc: asc, ..q }));
    }
}

/// Reading the condition that was written down sets it.
pub proof fn lemma_where_round_trip(ts: Seq<Token>, pos: int, q: QueryView, expr: Option<ExprView>)
    requires
        expr matches Some(e) ==> as_parsed(e),
        has_at(ts, pos, where_tokens(expr)),
        pos + where_tokens(expr).len() < ts.len(),
        is_clause_word(ts[pos + where_tokens(expr).len()]),
        expr is None ==> q.expr is None,
    ensures
        clauses_at(ts, pos, q) == clauses_at(
            ts,
            pos + where_tokens(expr).len(),
            QueryView { expr, ..q },
        ),
        is_clause_word(ts[pos]),
{
    match expr {
        Some(e) => {
            let head = seq![Token::Raw("where"@)];
            lemma_expr_len(e);
            lemma_has_at_split(ts, pos, head, expr_tokens(e));
            lemma_has_at_index(ts, pos, head, 0);
            lemma_word_where(ts[pos]);
            lemma_expr_round_trip(ts, pos + 1, e, false);
        },
        None => {
            assert(q =~= (QueryView { expr, ..q }));
        },
    }
}

/// Reading the roots that were written down sets them.
pub proof fn lemma_from_round_trip(ts: Seq<Token>, pos: int, q: QueryView, rs: Seq<RootView>)
    requires
        rs.len() >= 1,
        has_at(ts, pos, seq![Token::Raw("from"@)] + roots_tokens(rs)),
        pos + 1 + roots_tokens(rs).len() < ts.len(),
        is_clause_word(ts[pos + 1 + roots_tokens(rs).len()]),
    ensures
        clauses_at(ts, pos, q) == clauses_at(
            ts,
            pos + 1 + roots_tokens(rs).len(),
            QueryView { roots: rs, ..q },
        ),
        ts[pos] == Token::Raw("from"@),
{
    let head = seq![Token::Raw("from"@)];
    lemma_has_at_split(ts, pos, head, roots_tokens(rs));
    lemma_has_at_index(ts, pos, head, 0);
    lemma_word_from(ts[pos]);
    lemma_roots_round_trip(ts, pos + 1, rs);
    lemma_roots_len(rs);
}

/// The query before any clause is read: the columns, and the rest as it
/// is where the query says nothing.
pub open spec fn bare_query(fields: Seq<ColumnView>) -> QueryView {
    QueryView {
        fields,
        roots: seq![default_root()],
        expr: None,
        ordering_fields: Seq::empty(),
        ordering_asc: Seq::empty(),
        limit: 0,
        output_format: OutputFormat::Tabs,
    }
}

/// Where each part of a query stands among its tokens.
pub proof fn lemma_query_parts(q: QueryView)
    ensures
        ({
            let ts = query_tokens(q);
            let at_from = columns_tokens(q.fields).len() as int;
            let at_where = at_from + 1 + roots_tokens(q.roots).len();
            let at_order = at_where + where_tokens(q.expr).len();
            let at_tail = at_order + order_clause_tokens(q.ordering_fields, q.ordering_asc).len();
            &&& has_at(ts, 0, columns_tokens(q.fields))
            &&& has_at(ts, at_from, seq![Token::Raw("from"@)] + roots_tokens(q.roots))
            &&& has_at(ts, at_where, where_tokens(q.expr))
            &&& has_at(ts, at_order, order_clause_tokens(q.ordering_fields, q.ordering_asc))
            &&& has_at(ts, at_tail, tail_tokens(q.limit, q.output_format))
            &&& at_tail + 4 == ts.len()
        }),
{
    let ts = query_tokens(q);
    let cols = columns_tokens(q.fields);
    let from = seq![Token::Raw("from"@)] + roots_tokens(q.roots);
    let cond = where_tokens(q.expr);
    let order = order_clause_tokens(q.ordering_fields, q.ordering_asc);
    let tail = tail_tokens(q.limit, q.output_format);
    assert(ts =~= cols + (from + (cond + (order + tail))));
    assert(ts.subrange(0, ts.len() as int) =~= ts);
    lemma_has_at_split(ts, 0, cols, from + (cond + (order + tail)));
    let at_from = cols.len() as int;
    lemma_has_at_split(ts, at_from, from, cond + (order + tail));
    let at_where = at_from + from.len();
    lemma_has_at_split(ts, at_where, cond, order + tail);
    let at_order = at_where + cond.len();
    lemma_has_at_split(ts, at_order, order, tail);
}

/// Reading the clauses of a query that was written down completes the
/// query.
pub proof fn lemma_clauses_round_trip(q: QueryView)
    requires
        parsed(q),
    ensures
        clauses_at(query_tokens(q), columns_tokens(q.fields).len() as int, bare_query(q.fields))
            == Ok::<QueryView, ParseError>(q),
        query_tokens(q)[columns_tokens(q.fields).len() as int] == Token::Raw("from"@),
{
    let ts = query_tokens(q);
    lemma_query_parts(q);
    let at_from = columns_tokens(q.fields).len() as int;
    let at_where = at_from + 1 + roots_tokens(q.roots).len();
    let at_order = at_where + where_tokens(q.expr).len();
    let at_tail = at_order + order_clause_tokens(q.ordering_fields, q.ordering_asc).len();
    let bare = bare_query(q.fields);
    let rooted = QueryView { roots: q.roots, ..bare };
    let filtered = QueryView { expr: q.expr, ..rooted };
    let ordered = QueryView {
        ordering_fields: q.ordering_fields,
        ordering_asc: q.ordering_asc,
        ..filtered
    };
    lemma_tail_round_trip(ts, at_tail, ordered, q);
    lemma_order_clause_round_trip(ts, at_order, filtered, q.ordering_fields, q.ordering_asc);
    lemma_where_round_trip(ts, at_where, rooted, q.expr);
    lemma_from_round_trip(ts, at_from, bare, q.roots);
}

/// Reading a query that was written down gives the query back.
pub proof fn lemma_query_round_trip(q: QueryView)
    requires
        parsed(q),
    ensures
        query_of(query_tokens(q)) == Ok::<QueryView, ParseError>(q),
{
    let ts = query_tokens(q);
    lemma_query_parts(q);
    lemma_clauses_round_trip(q);
    lemma_columns_round_trip(ts, 0, q.fields);
}

/// Roots are written with one token at least.
pub proof fn lemma_roots_len(rs: Seq<RootView>)
    requires
        rs.len() >= 1,
    ensures
        roots_tokens(rs).len() >= 1,
    decreases rs.len(),
{
}

/// The names of the fields can be written and read again.
pub proof fn lemma_field_label_writable(f: Field)
    ensures
        writable(Token::Raw(f.label())),
{
    reveal_field_names();
}

/// The names of the functions can be written and read again.
pub proof fn lemma_function_label_writable(f: Function)
    ensures
        writable(Token::Raw(f.label())),
{
    reveal_function_names();
}

/// The words of the language can be written and read again.
pub proof fn lemma_keywords_writable()
    ensures
        writable(Token::Raw("from"@)),
        writable(Token::Raw("where"@)),
        writable(Token::Raw("order"@)),
        writable(Token::Raw("by"@)),
        writable(Token::Raw("limit"@)),
        writable(Token::Raw("into"@)),
        writable(Token::Raw("desc"@)),
        writable(Token::Raw("and"@)),
        writable(Token::Raw("or"@)),
        writable(Token::Raw("maxdepth"@)),
        writable(Token::Raw("mindepth"@)),
        writable(Token::Raw("archives"@)),
        writable(Token::Raw("symlinks"@)),
        writable(Token::Raw("gitignore"@)),
{
    reveal_keywords();
}

/// The tokens of the comparisons and the names of the formats can be
/// written and read again.
pub proof fn lemma_operators_writable(op: Op, format: OutputFormat)
    ensures
        writable(op_token(op)),
        writable(Token::Raw(format_word(format))),
{
    reveal_operators();
}

/// A number can be written and read again.
pub proof fn lemma_number_writable(n: nat)
    ensures
        writable(Token::Raw(decimal(n))),
{
    lemma_decimal_digits(n);
    let s = decimal(n);
    assert forall|i: int| 0 <= i < s.len() implies is_word_char(#[trigger] s[i]) by {
        assert(is_digit(s[i]));
    }
}

/// Two runs of tokens that can be written make one that can be written.
pub proof fn lemma_writable_join(a: Seq<Token>, b: Seq<Token>)
    requires
        all_writable(a),
        all_writable(b),
    ensures
        all_writable(a + b),
{
    assert forall|i: int| 0 <= i < (a + b).len() implies writable(#[trigger] (a + b)[i]) by {
        if i < a.len() {
            assert((a + b)[i] == a[i]);
        } else {
            assert((a + b)[i] == b[i - a.len()]);
        }
    }
}

pub proof fn lemma_column_writable(c: ColumnView)
    ensures
        all_writable(column_tokens(c)),
    decreases c,
{
    match c {
        ColumnView::Value(s) => {},
        ColumnView::Field(f) => {
            lemma_field_label_writable(f);
        },
        ColumnView::Function(f, arg) => {
            lemma_function_label_writable(f);
            lemma_column_writable(*arg);
            lemma_writable_join(seq![Token::Raw(f.label()), Token::Open], column_tokens(*arg));
            lemma_writable_join(
                seq![Token::Raw(f.label()), Token::Open] + column_tokens(*arg),
                seq![Token::Close],
            );
        },
    }
}

pub proof fn lemma_columns_writable(cs: Seq<ColumnView>)
    ensures
        all_writable(columns_tokens(cs)),
    decreases cs.len(),
{
    if cs.len() >= 1 {
        lemma_column_writable(cs[0]);
        if cs.len() > 1 {
            lemma_columns_writable(cs.drop_first());
            lemma_writable_join(column_tokens(cs[0]), seq![Token::Comma]);
            lemma_writable_join(
                column_tokens(cs[0]) + seq![Token::Comma],
                columns_tokens(cs.drop_first()),
            );
        }
    }
}

pub proof fn lemma_order_writable(cs: Seq<ColumnView>, asc: Seq<bool>)
    ensures
        all_writable(order_tokens(cs, asc)),
    decreases cs.len(),
{
    lemma_keywords_writable();
    if cs.len() >= 1 && asc.len() == cs.len() {
        lemma_column_writable(cs[0]);
        let mark = if asc[0] {
            Seq::<Token>::empty()
        } else {
            seq![Token::Raw("desc"@)]
        };
        lemma_writable_join(column_tokens(cs[0]), mark);
        if cs.len() > 1 {
            lemma_order_writable(cs.drop_first(), asc.drop_first());
            lemma_writable_join(column_tokens(cs[0]) + mark, seq![Token::Comma]);
            lemma_writable_join(
                column_tokens(cs[0]) + mark + seq![Token::Comma],
                order_tokens(cs.drop_first(), asc.drop_first()),
            );
        }
    }
}

pub proof fn lemma_root_writable(r: RootView)
    ensures
        all_writable(root_tokens(r)),
{
    lemma_keywords_writable();
    lemma_number_writable(r.min_depth as nat);
    lemma_number_writable(r.max_depth as nat);
    let a = if r.archives {
        seq![Token::Raw("archives"@)]
    } else {
        Seq::<Token>::empty()
    };
    let s = if r.symlinks {
        seq![Token::Raw("symlinks"@)]
    } else {
        Seq::<Token>::empty()
    };
    let g = if r.gitignore {
        seq![Token::Raw("gitignore"@)]
    } else {
        Seq::<Token>::empty()
    };
    lemma_writable_join(a, s);
    lemma_writable_join(a + s, g);
    let head = seq![
        Token::Quoted(r.path),
        Token::Raw("mindepth"@),
        Token::Raw(decimal(r.min_depth as nat)),
        Token::Raw("maxdepth"@),
        Token::Raw(decimal(r.max_depth as nat)),
    ];
    lemma_writable_join(head, flag_tokens(r));
}

pub proof fn lemma_roots_writable(rs: Seq<RootView>)
    ensures
        all_writable(roots_tokens(rs)),
    decreases rs.len(),
{
    if rs.len() >= 1 {
        lemma_root_writable(rs[0]);
        if rs.len() > 1 {
            lemma_roots_writable(rs.drop_first());
            lemma_writable_join(root_tokens(rs[0]), seq![Token::Comma]);
            lemma_writable_join(
                root_tokens(rs[0]) + seq![Token::Comma],
                roots_tokens(rs.drop_first()),
            );
        }
    }
}

pub proof fn lemma_expr_writable(e: ExprView)
    ensures
        all_writable(expr_tokens(e)),
        all_writable(wrapped(e, expr_tokens(e))),
    decreases e,
{
    lemma_keywords_writable();
    match e {
        ExprView::Leaf { field, op, val, regex, range } => {
            lemma_field_label_writable(field);
            lemma_operators_writable(op, OutputFormat::Tabs);
        },
        ExprView::Node { logical_op, left, right } => {
            lemma_expr_writable(*left);
            lemma_expr_writable(*right);
            let l = wrapped(*left, expr_tokens(*left));
            let r = wrapped(*right, expr_tokens(*right));
            let word = seq![Token::Raw(logical_word(logical_op))];
            lemma_writable_join(l, word);
            lemma_writable_join(l + word, r);
            lemma_writable_join(seq![Token::Open], expr_tokens(e));
            lemma_writable_join(seq![Token::Open] + expr_tokens(e), seq![Token::Close]);
        },
    }
}

/// A query that was written down can be cut into its tokens again.
pub proof fn lemma_query_writable(q: QueryView)
    ensures
        all_writable(query_tokens(q)),
{
    lemma_keywords_writable();
    lemma_columns_writable(q.fields);
    lemma_roots_writable(q.roots);
    lemma_order_writable(q.ordering_fields, q.ordering_asc);
    lemma_number_writable(q.limit as nat);
    lemma_operators_writable(Op::Eq, q.output_format);
    let cols = columns_tokens(q.fields);
    let from = seq![Token::Raw("from"@)];
    let roots = roots_tokens(q.roots);
    let cond = where_tokens(q.expr);
    let order = order_clause_tokens(q.ordering_fields, q.ordering_asc);
    let tail = tail_tokens(q.limit, q.output_format);
    match q.expr {
        Some(e) => {
            lemma_expr_writable(e);
            lemma_writable_join(seq![Token::Raw("where"@)], expr_tokens(e));
        },
        None => {},
    }
    if q.ordering_fields.len() > 0 {
        lemma_writable_join(
            seq![Token::Raw("order"@), Token::Raw("by"@)],
            order_tokens(q.ordering_fields, q.ordering_asc),
        );
    }
    lemma_writable_join(cols, from);
    lemma_writable_join(cols + from, roots);
    lemma_writable_join(cols + from + roots, cond);
    lemma_writable_join(cols + from + roots + cond, order);
    lemma_writable_join(cols + from + roots + cond + order, tail);
}

/// The text that writes a query down.
pub open spec fn query_text(q: QueryView) -> Seq<char> {
    written(query_tokens(q))
}

/// Reading what was written gives the query back: a query that the parser
/// gave, written down as text, is read as the same query again.
pub proof fn lemma_reading_what_was_written(q: QueryView)
    requires
        parsed(q),
    ensures
        query_of(tokens_of(query_text(q))) == Ok::<QueryView, ParseError>(q),
{
    lemma_query_writable(q);
    lemma_written_round_trip(query_tokens(q));
    lemma_query_round_trip(q);
}

fn raw(word: &str) -> (t: Lexem)
    ensures
        t@ == Token::Raw(word@),
{
    Lexem::RawString(String::from_str(word))
}

fn number(n: u32) -> (t: Lexem)
    ensures
        t@ == Token::Raw(decimal(n as nat)),
{
    Lexem::RawString(decimal_string(n as u128))
}

fn op_lexem(op: Op) -> (t: Lexem)
    ensures
        t@ == op_token(op),
{
    match op {
        Op::Eq => Lexem::Operator(String::from_str("=")),
        Op::Ne => Lexem::Operator(String::from_str("!=")),
        Op::Eeq => Lexem::Operator(String::from_str("===")),
        Op::Ene => Lexem::Operator(String::from_str("!==")),
        Op::Gt => Lexem::Operator(String::from_str(">")),
        Op::Gte => Lexem::Operator(String::from_str(">=")),
        Op::Lt => Lexem::Operator(String::from_str("<")),
        Op::Lte => Lexem::Operator(String::from_str("<=")),
        Op::Rx => Lexem::Operator(String::from_str("~=")),
        Op::Like => Lexem::RawString(String::from_str("like")),
    }
}

fn format_name(format: OutputFormat) -> (s: &'static str)
    ensures
        s@ == format_word(format),
{
    match format {
        OutputFormat::Tabs => "tabs",
        OutputFormat::Lines => "lines",
        OutputFormat::List => "list",
        OutputFormat::Csv => "csv",
        OutputFormat::Json => "json",
    }
}

fn push_token(out: &mut Vec<Lexem>, t: Lexem)
    ensures
        tokens_view(final(out)@) == tokens_view(old(out)@).push(t@),
{
    out.push(t);
    assert(tokens_view(out@) =~= tokens_view(old(out)@).push(t@));
}

fn push_column(out: &mut Vec<Lexem>, c: &ColumnExpr)
    ensures
        tokens_view(final(out)@) == tokens_view(old(out)@) + column_tokens(c@),
    decreases *c,
{
    let ghost before = tokens_view(out@);
    match c {
        ColumnExpr::Value(v) => {
            push_token(out, Lexem::String(v.clone()));
            assert(tokens_view(out@) =~= before + column_tokens(c@));
        },
        ColumnExpr::Field(f) => {
            push_token(out, raw(f.name()));
            assert(tokens_view(out@) =~= before + column_tokens(c@));
        },
        ColumnExpr::Function(f, arg) => {
            push_token(out, raw(f.name()));
            push_token(out, Lexem::Open);
            push_column(out, arg);
            push_token(out, Lexem::Close);
            assert(tokens_view(out@) =~= before + column_tokens(c@));
        },
    }
}

fn push_columns(out: &mut Vec<Lexem>, cs: &Vec<ColumnExpr>)
    ensures
        tokens_view(final(out)@) == tokens_view(old(out)@) + columns_tokens(columns_view(cs@)),
{
    let ghost all = columns_view(cs@);
    let ghost before = tokens_view(out@);
    let mut i: usize = 0;
    assert(all.skip(0) =~= all);
    while i < cs.len()
        invariant
            i <= cs.len(),
            all == columns_view(cs@),
            tokens_view(out@) + columns_tokens(all.skip(i as int)) == before + columns_tokens(all),
        decreases cs.len() - i,
    {
        let ghost head = tokens_view(out@);
        let ghost rest = all.skip(i as int);
        proof {
            assert(rest[0] == cs@[i as int]@);
            assert(rest.drop_first() =~= all.skip(i + 1));
        }
        push_column(out, &cs[i]);
        if i + 1 < cs.len() {
            push_token(out, Lexem::Comma);
            assert(tokens_view(out@) + columns_tokens(all.skip(i + 1)) =~= head + columns_tokens(
                rest,
            ));
        } else {
            assert(tokens_view(out@) + columns_tokens(all.skip(i + 1)) =~= head + columns_tokens(
                rest,
            ));
        }
        i += 1;
    }
    assert(tokens_view(out@) + Seq::<Token>::empty() =~= tokens_view(out@));
}

fn push_order(out: &mut Vec<Lexem>, cs: &Vec<ColumnExpr>, asc: &Vec<bool>)
    requires
        cs@.len() == asc@.len(),
    ensures
        tokens_view(final(out)@) == tokens_view(old(out)@) + order_tokens(
            columns_view(cs@),
            asc@,
        ),
{
    let ghost all = columns_view(cs@);
    let ghost before = tokens_view(out@);
    let mut i: usize = 0;
    assert(all.skip(0) =~= all);
    assert(asc@.skip(0) =~= asc@);
    while i < cs.len()
        invariant
            i <= cs.len(),
            cs@.len() == asc@.len(),
            all == columns_view(cs@),
            tokens_view(out@) + order_tokens(all.skip(i as int), asc@.skip(i as int)) == before
                + order_tokens(all, asc@),
        decreases cs.len() - i,
    {
        let ghost head = tokens_view(out@);
        let ghost rest = all.skip(i as int);
        let ghost flags = asc@.skip(i as int);
        proof {
            assert(rest[0] == cs@[i as int]@);
            assert(flags[0] == asc@[i as int]);
            assert(rest.drop_first() =~= all.skip(i + 1));
            assert(flags.drop_first() =~= asc@.skip(i + 1));
        }
        push_column(out, &cs[i]);
        if !asc[i] {
            push_token(out, raw("desc"));
        }
        if i + 1 < cs.len() {
            push_token(out, Lexem::Comma);
        }
        proof {
            assert(tokens_view(out@) + order_tokens(all.skip(i + 1), asc@.skip(i + 1)) =~= head
                + order_tokens(rest, flags));
        }
        i += 1;
    }
    assert(tokens_view(out@) + Seq::<Token>::empty() =~= tokens_view(out@));
}

fn push_root(out: &mut Vec<Lexem>, r: &Root)
    ensures
        tokens_view(final(out)@) == tokens_view(old(out)@) + root_tokens(r@),
{
    let ghost before = tokens_view(out@);
    push_token(out, Lexem::String(r.path.clone()));
    push_token(out, raw("mindepth"));
    push_token(out, number(r.min_depth));
    push_token(out, raw("maxdepth"));
    push_token(out, number(r.max_depth));
    if r.archives {
        push_token(out, raw("archives"));
    }
    if r.symlinks {
        push_token(out, raw("symlinks"));
    }
    if r.gitignore {
        push_token(out, raw("gitignore"));
    }
    assert(tokens_view(out@) =~= before + root_tokens(r@));
}

fn push_roots(out: &mut Vec<Lexem>, rs: &Vec<Root>)
    ensures
        tokens_view(final(out)@) == tokens_view(old(out)@) + roots_tokens(roots_view(rs@)),
{
    let ghost all = roots_view(rs@);
    let ghost before = tokens_view(out@);
    let mut i: usize = 0;
    assert(all.skip(0) =~= all);
    while i < rs.len()
        invariant
            i <= rs.len(),
            all == roots_view(rs@),
            tokens_view(out@) + roots_tokens(all.skip(i as int)) == before + roots_tokens(all),
        decreases rs.len() - i,
    {
        let ghost head = tokens_view(out@);
        let ghost rest = all.skip(i as int);
        proof {
            assert(rest[0] == rs@[i as int]@);
            assert(rest.drop_first() =~= all.skip(i + 1));
        }
        push_root(out, &rs[i]);
        if i + 1 < rs.len() {
            push_token(out, Lexem::Comma);
        }
        proof {
            assert(tokens_view(out@) + roots_tokens(all.skip(i + 1)) =~= head + roots_tokens(rest));
        }
        i += 1;
    }
    assert(tokens_view(out@) + Seq::<Token>::empty() =~= tokens_view(out@));
}

fn push_expr(out: &mut Vec<Lexem>, e: &Expr, factor: bool)
    ensures
        tokens_view(final(out)@) == tokens_view(old(out)@) + if factor {
            wrapped(e@, expr_tokens(e@))
        } else {
            expr_tokens(e@)
        },
    decreases *e, (if factor { 1int } else { 0int }),
{
    let ghost before = tokens_view(out@);
    match e {
        Expr::Leaf { field, op, val, regex, range } => {
            push_token(out, raw(field.name()));
            push_token(out, op_lexem(*op));
            push_token(out, Lexem::String(val.clone()));
            assert(tokens_view(out@) =~= before + expr_tokens(e@));
        },
        Expr::Node { logical_op, left, right } => {
            if factor {
                push_token(out, Lexem::Open);
                push_expr(out, e, false);
                push_token(out, Lexem::Close);
                assert(tokens_view(out@) =~= before + wrapped(e@, expr_tokens(e@)));
            } else {
                push_expr(out, left, true);
                match logical_op {
                    LogicalOp::And => push_token(out, raw("and")),
                    LogicalOp::Or => push_token(out, raw("or")),
                }
                push_expr(out, right, true);
                assert(tokens_view(out@) =~= before + expr_tokens(e@));
            }
        },
    }
}

/// The tokens that write a query down.
pub fn to_lexems(q: &Query) -> (tokens: Vec<Lexem>)
    requires
        q.ordering_fields@.len() == q.ordering_asc@.len(),
    ensures
        tokens_view(tokens@) == query_tokens(q@),
{
    let mut out: Vec<Lexem> = Vec::new();
    assert(tokens_view(out@) =~= Seq::<Token>::empty());
    push_columns(&mut out, &q.fields);
    push_token(&mut out, raw("from"));
    push_roots(&mut out, &q.roots);
    match &q.expr {
        Some(e) => {
            push_token(&mut out, raw("where"));
            push_expr(&mut out, e, false);
        },
        None => {},
    }
    if q.ordering_fields.len() > 0 {
        push_token(&mut out, raw("order"));
        push_token(&mut out, raw("by"));
        push_order(&mut out, &q.ordering_fields, &q.ordering_asc);
    }
    push_token(&mut out, raw("limit"));
    push_token(&mut out, number(q.limit));
    push_token(&mut out, raw("into"));
    push_token(&mut out, raw(format_name(q.output_format)));
    assert(tokens_view(out@) =~= query_tokens(q@));
    out
}

/// Writes a query down as text that reads as the same query.
pub fn to_string(q: &Query) -> (s: String)
    requires
        q.ordering_fields@.len() == q.ordering_asc@.len(),
    ensures
        s@ == query_text(q@),
{
    write_tokens(&to_lexems(q))
}

} // verus!
