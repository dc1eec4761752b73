//! Writing tokens as text, and why cutting the text gives the tokens back.
use crate::lexer::{
    is_operator_char, is_quote, is_space, is_word_char, operator_end, quoted, tokens_from,
    tokens_of, tokens_view, word_end, Lexem, Token,
};
use crate::text::{chars_of, push_str, string_of};
use vstd::prelude::*;

verus! {

/// A character of a quoted text as it is written: a double quote and a
/// backslash behind a backslash, anything else as it is.
pub open spec fn escaped_char(c: char) -> Seq<char> {
    if c == '"' || c == '\\' {
        seq!['\\', c]
    } else {
        seq![c]
    }
}

/// A quoted text as it is written between its quotes.
pub open spec fn escaped(s: Seq<char>) -> Seq<char>
    decreases s.len(),
{
    if s.len() == 0 {
        Seq::empty()
    } else {
        escaped_char(s[0]) + escaped(s.drop_first())
    }
}

/// A token as it is written.
pub open spec fn token_text(t: Token) -> Seq<char> {
    match t {
        Token::Raw(s) => s,
        Token::Operator(s) => s,
        Token::Quoted(s) => seq!['"'] + escaped(s) + seq!['"'],
        Token::Comma => seq![','],
        Token::Open => seq!['('],
        Token::Close => seq![')'],
    }
}

/// Tokens as they are written: each with a space behind it.
pub open spec fn written(ts: Seq<Token>) -> Seq<char>
    decreases ts.len(),
{
    if ts.len() == 0 {
        Seq::empty()
    } else {
        token_text(ts[0]) + seq![' '] + written(ts.drop_first())
    }
}

/// Whether a token can be written and read again: a word is made of
/// characters of words, an operator of characters of operators, and neither
/// is empty.
pub open spec fn writable(t: Token) -> bool {
    match t {
        Token::Raw(s) => s.len() > 0 && forall|i: int|
            0 <= i < s.len() ==> is_word_char(#[trigger] s[i]),
        Token::Operator(s) => s.len() > 0 && forall|i: int|
            0 <= i < s.len() ==> is_operator_char(#[trigger] s[i]),
        _ => true,
    }
}

pub open spec fn all_writable(ts: Seq<Token>) -> bool {
    forall|i: int| 0 <= i < ts.len() ==> writable(#[trigger] ts[i])
}

/// A run of characters of words ends where the first other character
/// stands.
pub proof fn lemma_word_end(s: Seq<char>, i: int, n: int)
    requires
        0 <= i <= n < s.len(),
        forall|k: int| i <= k < n ==> is_word_char(#[trigger] s[k]),
        !is_word_char(s[n]),
    ensures
        word_end(s, i) == n,
    decreases n - i,
{
    if i < n {
        lemma_word_end(s, i + 1, n);
    }
}

/// A run of characters of operators ends where the first other character
/// stands.
pub proof fn lemma_operator_end(s: Seq<char>, i: int, n: int)
    requires
        0 <= i <= n < s.len(),
        forall|k: int| i <= k < n ==> is_operator_char(#[trigger] s[k]),
        !is_operator_char(s[n]),
    ensures
        operator_end(s, i) == n,
    decreases n - i,
{
    if i < n {
        lemma_operator_end(s, i + 1, n);
    }
}

/// Reading what was written between quotes gives the text back, and ends
/// behind the closing quote.
pub proof fn lemma_quoted(s: Seq<char>, i: int, q: Seq<char>)
    requires
        0 <= i,
        i + escaped(q).len() < s.len(),
        s.subrange(i, i + escaped(q).len()) == escaped(q),
        s[i + escaped(q).len()] == '"',
    ensures
        quoted(s, i, '"') == (q, i + escaped(q).len() + 1),
    decreases q.len(),
{
    if q.len() == 0 {
    } else {
        let c = q[0];
        let head = escaped_char(c);
        let tail = escaped(q.drop_first());
        let all = escaped(q);
        assert(all =~= head + tail);
        assert(s[i] == all[0]) by {
            assert(s.subrange(i, i + all.len())[0] == s[i]);
        }
        assert(s.subrange(i + head.len(), i + head.len() + tail.len()) =~= tail) by {
            assert forall|k: int| 0 <= k < tail.len() implies s[i + head.len() + k] == tail[k] by {
                assert(s.subrange(i, i + all.len())[head.len() + k] == s[i + head.len() + k]);
            }
        }
        lemma_quoted(s, i + head.len(), q.drop_first());
        let rest = quoted(s, i + head.len(), '"');
        assert(seq![c] + q.drop_first() =~= q);
        if c == '"' || c == '\\' {
            assert(s[i + 1] == all[1]) by {
                assert(s.subrange(i, i + all.len())[1] == s[i + 1]);
            }
        }
    }
}

/// Behind a text, a run of characters of words ends where it ends in what
/// follows the text.
pub proof fn lemma_word_end_shift(a: Seq<char>, b: Seq<char>, i: int)
    requires
        0 <= i <= b.len(),
    ensures
        word_end(a + b, a.len() + i) == a.len() + word_end(b, i),
    decreases b.len() - i,
{
    if i < b.len() {
        assert((a + b)[a.len() + i] == b[i]);
        if is_word_char(b[i]) {
            lemma_word_end_shift(a, b, i + 1);
        }
    }
}

pub proof fn lemma_operator_end_shift(a: Seq<char>, b: Seq<char>, i: int)
    requires
        0 <= i <= b.len(),
    ensures
        operator_end(a + b, a.len() + i) == a.len() + operator_end(b, i),
    decreases b.len() - i,
{
    if i < b.len() {
        assert((a + b)[a.len() + i] == b[i]);
        if is_operator_char(b[i]) {
            lemma_operator_end_shift(a, b, i + 1);
        }
    }
}

pub proof fn lemma_quoted_shift(a: Seq<char>, b: Seq<char>, i: int, quote: char)
    requires
        0 <= i <= b.len(),
    ensures
        quoted(a + b, a.len() + i, quote) == (
            quoted(b, i, quote).0,
            a.len() + quoted(b, i, quote).1,
        ),
        i <= quoted(b, i, quote).1 <= b.len(),
    decreases b.len() - i,
{
    if i < b.len() {
        assert((a + b)[a.len() + i] == b[i]);
        if b[i] == quote {
        } else if b[i] == '\\' && i + 1 < b.len() && (b[i + 1] == quote || b[i + 1] == '\\') {
            assert((a + b)[a.len() + i + 1] == b[i + 1]);
            lemma_quoted_shift(a, b, i + 2, quote);
        } else {
            if i + 1 < b.len() {
                assert((a + b)[a.len() + i + 1] == b[i + 1]);
            }
            lemma_quoted_shift(a, b, i + 1, quote);
        }
    }
}

/// Behind a text, the tokens are those of what follows the text.
pub proof fn lemma_tokens_shift(a: Seq<char>, b: Seq<char>, i: int)
    requires
        0 <= i <= b.len(),
    ensures
        tokens_from(a + b, a.len() + i) == tokens_from(b, i),
    decreases b.len() - i,
{
    let s = a + b;
    let n = a.len() as int;
    if i < b.len() {
        assert(s[n + i] == b[i]);
        let c = b[i];
        if is_space(c) || c == ',' || c == '(' || c == ')' {
            lemma_tokens_shift(a, b, i + 1);
        } else if is_quote(c) {
            lemma_quoted_shift(a, b, i + 1, c);
            let q = quoted(b, i + 1, c);
            lemma_tokens_shift(a, b, q.1);
        } else if is_operator_char(c) {
            lemma_operator_end_shift(a, b, i + 1);
            crate::lexer::lemma_operator_end_bounds(b, i + 1);
            let j = operator_end(b, i + 1);
            assert(s.subrange(n + i, n + j) =~= b.subrange(i, j));
            lemma_tokens_shift(a, b, j);
        } else {
            lemma_word_end_shift(a, b, i + 1);
            crate::lexer::lemma_word_end_bounds(b, i + 1);
            let j = word_end(b, i + 1);
            assert(s.subrange(n + i, n + j) =~= b.subrange(i, j));
            lemma_tokens_shift(a, b, j);
        }
    }
}

/// The first token of a text that begins with a written token is that
/// token, and the rest of the tokens are those of the rest of the text.
pub proof fn lemma_first_token(t: Token, rest: Seq<char>)
    requires
        writable(t),
    ensures
        tokens_from(token_text(t) + seq![' '] + rest, 0) == seq![t] + tokens_from(rest, 0),
{
    let text = token_text(t);
    let head = text + seq![' '];
    let s = head + rest;
    let n = text.len() as int;
    assert(s[n] == ' ');
    assert forall|k: int| 0 <= k < n implies s[k] == text[k] by {}
    lemma_tokens_shift(head, rest, 0);
    assert(tokens_from(s, n) == tokens_from(s, n + 1));
    match t {
        Token::Raw(w) => {
            assert(is_word_char(s[0])) by {
                assert(s[0] == w[0]);
            }
            lemma_word_end(s, 1, n);
            assert(s.subrange(0, n) =~= w);
        },
        Token::Operator(w) => {
            assert(is_operator_char(s[0])) by {
                assert(s[0] == w[0]);
            }
            lemma_operator_end(s, 1, n);
            assert(s.subrange(0, n) =~= w);
        },
        Token::Quoted(q) => {
            let e = escaped(q);
            let m = e.len() as int;
            assert(text =~= seq!['"'] + (e + seq!['"']));
            assert(s[0] == '"');
            assert(s[1 + m] == '"') by {
                assert(text[1 + m] == '"');
            }
            assert(s.subrange(1, 1 + m) =~= e) by {
                assert forall|k: int| 0 <= k < m implies s[1 + k] == e[k] by {
                    assert(text[1 + k] == e[k]);
                }
            }
            lemma_quoted(s, 1, q);
        },
        Token::Comma => {},
        Token::Open => {},
        Token::Close => {},
    }
}

/// Cutting what was written gives the tokens back.
pub proof fn lemma_written_round_trip(ts: Seq<Token>)
    requires
        all_writable(ts),
    ensures
        tokens_of(written(ts)) == ts,
    decreases ts.len(),
{
    if ts.len() > 0 {
        let rest = ts.drop_first();
        assert(all_writable(rest)) by {
            assert forall|i: int| 0 <= i < rest.len() implies writable(#[trigger] rest[i]) by {
                assert(rest[i] == ts[i + 1]);
            }
        }
        lemma_written_round_trip(rest);
        lemma_first_token(ts[0], written(rest));
        assert(seq![ts[0]] + rest =~= ts);
    }
}

fn push_escaped(out: &mut Vec<char>, s: &str)
    ensures
        final(out)@ == old(out)@ + escaped(s@),
{
    let v = chars_of(s);
    let mut pieces: Vec<char> = Vec::new();
    let mut k: usize = 0;
    assert(v@.skip(0) =~= v@);
    assert(pieces@ + escaped(v@.skip(0)) =~= escaped(v@));
    while k < v.len()
        invariant
            k <= v.len(),
            pieces@ + escaped(v@.skip(k as int)) == escaped(v@),
        decreases v.len() - k,
    {
        let c = v[k];
        let ghost before = pieces@;
        let ghost rest = v@.skip(k as int);
        proof {
            assert(rest[0] == c);
            assert(rest.drop_first() =~= v@.skip(k + 1));
        }
        if c == '"' || c == '\\' {
            pieces.push('\\');
        }
        pieces.push(c);
        k += 1;
        proof {
            assert(pieces@ =~= before + escaped_char(c));
            assert(pieces@ + escaped(v@.skip(k as int)) =~= before + escaped(rest));
        }
    }
    proof {
        assert(v@.skip(v.len() as int) =~= Seq::<char>::empty());
        assert(pieces@ + Seq::<char>::empty() =~= pieces@);
    }
    out.append(&mut pieces);
}

/// Writes tokens as text, each with a space behind it.
pub fn write_tokens(tokens: &Vec<Lexem>) -> (s: String)
    ensures
        s@ == written(tokens_view(tokens@)),
{
    let mut out: Vec<char> = Vec::new();
    let mut i: usize = 0;
    let ghost all = tokens_view(tokens@);
    assert(all.skip(0) =~= all);
    assert(out@ + written(all.skip(0)) =~= written(all));
    while i < tokens.len()
        invariant
            i <= tokens.len(),
            all == tokens_view(tokens@),
            out@ + written(all.skip(i as int)) == written(all),
        decreases tokens.len() - i,
    {
        let ghost before = out@;
        let ghost rest = all.skip(i as int);
        proof {
            assert(rest[0] == tokens@[i as int]@);
            assert(rest.drop_first() =~= all.skip(i + 1));
        }
        match &tokens[i] {
            Lexem::RawString(s) => {
                push_str(&mut out, s.as_str());
            },
            Lexem::Operator(s) => {
                push_str(&mut out, s.as_str());
            },
            Lexem::String(s) => {
                out.push('"');
                push_escaped(&mut out, s.as_str());
                out.push('"');
            },
            Lexem::Comma => {
                out.push(',');
            },
            Lexem::Open => {
                out.push('(');
            },
            Lexem::Close => {
                out.push(')');
            },
        }
        out.push(' ');
        i += 1;
        proof {
            assert(out@ =~= before + (token_text(rest[0]) + seq![' ']));
            assert(out@ + written(all.skip(i as int)) =~= before + written(rest));
        }
    }
    proof {
        assert(all.skip(tokens.len() as int) =~= Seq::<Token>::empty());
        assert(out@ + Seq::<char>::empty() =~= out@);
    }
    string_of(&out)
}

} // verus!
