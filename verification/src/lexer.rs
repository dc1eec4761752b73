//! Cutting a query into tokens.
use crate::text::{chars_of, string_of};
use vstd::prelude::*;

verus! {

/// A token of a query.
#[derive(Clone, Debug, PartialEq, Eq)]
pub enum Lexem {
    /// A word as it stands: a name, a number, a path.
    RawString(String),
    /// A text that stood in quotes.
    String(String),
    /// A run of the characters `=`, `!`, `<`, `>` and `~`.
    Operator(String),
    Comma,
    Open,
    Close,
}

/// A token as a mathematical object.
pub enum Token {
    Raw(Seq<char>),
    Quoted(Seq<char>),
    Operator(Seq<char>),
    Comma,
    Open,
    Close,
}

impl View for Lexem {
    type V = Token;

    open spec fn view(&self) -> Token {
        match self {
            Lexem::RawString(s) => Token::Raw(s@),
            Lexem::String(s) => Token::Quoted(s@),
            Lexem::Operator(s) => Token::Operator(s@),
            Lexem::Comma => Token::Comma,
            Lexem::Open => Token::Open,
            Lexem::Close => Token::Close,
        }
    }
}

/// The tokens of a vector as mathematical objects.
pub open spec fn tokens_view(v: Seq<Lexem>) -> Seq<Token> {
    Seq::new(v.len(), |i: int| v[i]@)
}

pub open spec fn is_space(c: char) -> bool {
    c == ' ' || c == '\t' || c == '\n' || c == '\r'
}

pub open spec fn is_operator_char(c: char) -> bool {
    c == '=' || c == '!' || c == '<' || c == '>' || c == '~'
}

pub open spec fn is_quote(c: char) -> bool {
    c == '\'' || c == '"'
}

/// Whether `c` can stand inside a word.
pub open spec fn is_word_char(c: char) -> bool {
    !is_space(c) && !is_operator_char(c) && !is_quote(c) && c != ',' && c != '(' && c != ')'
}

/// Where the run of operator characters that begins at `i` ends.
pub open spec fn operator_end(s: Seq<char>, i: int) -> int
    decreases s.len() - i,
{
    if 0 <= i < s.len() && is_operator_char(s[i]) {
        operator_end(s, i + 1)
    } else {
        i
    }
}

/// Where the word that begins at `i` ends.
pub open spec fn word_end(s: Seq<char>, i: int) -> int
    decreases s.len() - i,
{
    if 0 <= i < s.len() && is_word_char(s[i]) {
        word_end(s, i + 1)
    } else {
        i
    }
}

/// The text of the quoted string whose content begins at `i`, and where
/// the scan goes on behind it. The string ends at the next `quote`, or at
/// the end of the query. A backslash before the quote or before another
/// backslash is dropped, and what follows it stands for itself.
pub open spec fn quoted(s: Seq<char>, i: int, quote: char) -> (Seq<char>, int)
    decreases s.len() - i,
{
    if i < 0 || i >= s.len() {
        (Seq::empty(), i)
    } else if s[i] == quote {
        (Seq::empty(), i + 1)
    } else if s[i] == '\\' && i + 1 < s.len() && (s[i + 1] == quote || s[i + 1] == '\\') {
        let rest = quoted(s, i + 2, quote);
        (seq![s[i + 1]] + rest.0, rest.1)
    } else {
        let rest = quoted(s, i + 1, quote);
        (seq![s[i]] + rest.0, rest.1)
    }
}

/// The tokens of `s` from position `i` on. Spaces separate tokens and are
/// no part of any.
pub open spec fn tokens_from(s: Seq<char>, i: int) -> Seq<Token>
    decreases s.len() - i,
{
    if i < 0 || i >= s.len() {
        Seq::empty()
    } else if is_space(s[i]) {
        tokens_from(s, i + 1)
    } else if s[i] == ',' {
        seq![Token::Comma] + tokens_from(s, i + 1)
    } else if s[i] == '(' {
        seq![Token::Open] + tokens_from(s, i + 1)
    } else if s[i] == ')' {
        seq![Token::Close] + tokens_from(s, i + 1)
    } else if is_quote(s[i]) {
        let q = quoted(s, i + 1, s[i]);
        if i < q.1 <= s.len() {
            seq![Token::Quoted(q.0)] + tokens_from(s, q.1)
        } else {
            Seq::empty()
        }
    } else if is_operator_char(s[i]) {
        let j = operator_end(s, i + 1);
        if i < j <= s.len() {
            seq![Token::Operator(s.subrange(i, j))] + tokens_from(s, j)
        } else {
            Seq::empty()
        }
    } else {
        let j = word_end(s, i + 1);
        if i < j <= s.len() {
            seq![Token::Raw(s.subrange(i, j))] + tokens_from(s, j)
        } else {
            Seq::empty()
        }
    }
}

/// The tokens of a query.
pub open spec fn tokens_of(s: Seq<char>) -> Seq<Token> {
    tokens_from(s, 0)
}

pub proof fn lemma_operator_end_bounds(s: Seq<char>, i: int)
    requires
        0 <= i <= s.len(),
    ensures
        i <= operator_end(s, i) <= s.len(),
    decreases s.len() - i,
{
    if i < s.len() && is_operator_char(s[i]) {
        lemma_operator_end_bounds(s, i + 1);
    }
}

pub proof fn lemma_word_end_bounds(s: Seq<char>, i: int)
    requires
        0 <= i <= s.len(),
    ensures
        i <= word_end(s, i) <= s.len(),
    decreases s.len() - i,
{
    if i < s.len() && is_word_char(s[i]) {
        lemma_word_end_bounds(s, i + 1);
    }
}

fn space(c: char) -> (b: bool)
    ensures
        b == is_space(c),
{
    c == ' ' || c == '\t' || c == '\n' || c == '\r'
}

fn operator_char(c: char) -> (b: bool)
    ensures
        b == is_operator_char(c),
{
    c == '=' || c == '!' || c == '<' || c == '>' || c == '~'
}

fn quote_char(c: char) -> (b: bool)
    ensures
        b == is_quote(c),
{
    c == '\'' || c == '"'
}

fn word_char(c: char) -> (b: bool)
    ensures
        b == is_word_char(c),
{
    !space(c) && !operator_char(c) && !quote_char(c) && c != ',' && c != '(' && c != ')'
}

fn slice_string(s: &Vec<char>, from: usize, to: usize) -> (r: String)
    requires
        from <= to <= s.len(),
    ensures
        r@ == s@.subrange(from as int, to as int),
{
    let mut v: Vec<char> = Vec::new();
    let mut i: usize = from;
    while i < to
        invariant
            from <= i <= to <= s.len(),
            v@ == s@.subrange(from as int, i as int),
        decreases to - i,
    {
        v.push(s[i]);
        i += 1;
        assert(v@ =~= s@.subrange(from as int, i as int));
    }
    string_of(&v)
}

fn scan_operator(s: &Vec<char>, start: usize) -> (j: usize)
    requires
        start <= s.len(),
    ensures
        j as int == operator_end(s@, start as int),
        start <= j <= s.len(),
{
    let mut j: usize = start;
    while j < s.len() && operator_char(s[j])
        invariant
            start <= j <= s.len(),
            operator_end(s@, start as int) == operator_end(s@, j as int),
        decreases s.len() - j,
    {
        j += 1;
    }
    j
}

fn scan_word(s: &Vec<char>, start: usize) -> (j: usize)
    requires
        start <= s.len(),
    ensures
        j as int == word_end(s@, start as int),
        start <= j <= s.len(),
{
    let mut j: usize = start;
    while j < s.len() && word_char(s[j])
        invariant
            start <= j <= s.len(),
            word_end(s@, start as int) == word_end(s@, j as int),
        decreases s.len() - j,
    {
        j += 1;
    }
    j
}

fn scan_quoted(s: &Vec<char>, start: usize, quote: char) -> (r: (String, usize))
    requires
        start <= s.len(),
    ensures
        r.0@ == quoted(s@, start as int, quote).0,
        r.1 as int == quoted(s@, start as int, quote).1,
        start <= r.1 <= s.len(),
{
    let mut text: Vec<char> = Vec::new();
    let mut i: usize = start;
    let mut open: bool = true;
    while open && i < s.len()
        invariant
            start <= i <= s.len(),
            open ==> quoted(s@, start as int, quote) == (
                text@ + quoted(s@, i as int, quote).0,
                quoted(s@, i as int, quote).1,
            ),
            !open ==> quoted(s@, start as int, quote) == (text@, i as int),
        decreases s.len() - i,
    {
        let ghost before = text@;
        if s[i] == quote {
            i += 1;
            open = false;
            assert(before + Seq::<char>::empty() =~= before);
        } else if s[i] == '\\' && i + 1 < s.len() && (s[i + 1] == quote || s[i + 1] == '\\') {
            text.push(s[i + 1]);
            proof {
                let rest = quoted(s@, i + 2, quote);
                assert(before + (seq![s@[i + 1]] + rest.0) =~= text@ + rest.0);
            }
            i += 2;
        } else {
            text.push(s[i]);
            proof {
                let rest = quoted(s@, i + 1, quote);
                assert(before + (seq![s@[i as int]] + rest.0) =~= text@ + rest.0);
            }
            i += 1;
        }
    }
    proof {
        if open {
            assert(text@ + Seq::<char>::empty() =~= text@);
        }
    }
    (string_of(&text), i)
}

/// Cuts a query into its tokens.
pub fn tokenize(query: &str) -> (tokens: Vec<Lexem>)
    ensures
        tokens_view(tokens@) == tokens_of(query@),
{
    let s = chars_of(query);
    let mut tokens: Vec<Lexem> = Vec::new();
    let mut i: usize = 0;
    assert(tokens_view(tokens@) + tokens_from(s@, 0) =~= tokens_of(query@));
    while i < s.len()
        invariant
            i <= s.len(),
            s@ == query@,
            tokens_view(tokens@) + tokens_from(s@, i as int) == tokens_of(query@),
        decreases s.len() - i,
    {
        let c = s[i];
        let ghost before = tokens_view(tokens@);
        let ghost start = i as int;
        if space(c) {
            i += 1;
        } else if c == ',' {
            tokens.push(Lexem::Comma);
            i += 1;
            proof {
                assert(tokens_view(tokens@) =~= before.push(Token::Comma));
                assert(before.push(Token::Comma) + tokens_from(s@, i as int) =~= before
                    + tokens_from(s@, start));
            }
        } else if c == '(' {
            tokens.push(Lexem::Open);
            i += 1;
            proof {
                assert(tokens_view(tokens@) =~= before.push(Token::Open));
                assert(before.push(Token::Open) + tokens_from(s@, i as int) =~= before
                    + tokens_from(s@, start));
            }
        } else if c == ')' {
            tokens.push(Lexem::Close);
            i += 1;
            proof {
                assert(tokens_view(tokens@) =~= before.push(Token::Close));
                assert(before.push(Token::Close) + tokens_from(s@, i as int) =~= before
                    + tokens_from(s@, start));
            }
        } else if quote_char(c) {
            let (text, next) = scan_quoted(&s, i + 1, c);
            tokens.push(Lexem::String(text));
            i = next;
            proof {
                let t = Token::Quoted(text@);
                assert(tokens_view(tokens@) =~= before.push(t));
                assert(before.push(t) + tokens_from(s@, i as int) =~= before + tokens_from(
                    s@,
                    start,
                ));
            }
        } else if operator_char(c) {
            let j = scan_operator(&s, i + 1);
            let text = slice_string(&s, i, j);
            tokens.push(Lexem::Operator(text));
            i = j;
            proof {
                let t = Token::Operator(text@);
                assert(tokens_view(tokens@) =~= before.push(t));
                assert(before.push(t) + tokens_from(s@, i as int) =~= before + tokens_from(
                    s@,
                    start,
                ));
            }
        } else {
            let j = scan_word(&s, i + 1);
            let text = slice_string(&s, i, j);
            tokens.push(Lexem::RawString(text));
            i = j;
            proof {
                let t = Token::Raw(text@);
                assert(tokens_view(tokens@) =~= before.push(t));
                assert(before.push(t) + tokens_from(s@, i as int) =~= before + tokens_from(
                    s@,
                    start,
                ));
            }
        }
    }
    proof {
        assert(tokens_view(tokens@) + Seq::<Token>::empty() =~= tokens_view(tokens@));
    }
    tokens
}

} // verus!
