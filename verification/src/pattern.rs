//! Regular expressions, and the wildcards of the shell written as such.
use crate::text::{chars_of, string_of};
use vstd::prelude::*;

verus! {

/// Whether the `regex` crate accepts `pattern` as a regular expression.
pub uninterp spec fn regex_valid(pattern: Seq<char>) -> bool;

/// Whether the regular expression `pattern` matches somewhere in `text`.
pub uninterp spec fn regex_match(pattern: Seq<char>, text: Seq<char>) -> bool;

/// `regex::Regex::is_match` on the expression that `regex::Regex::new` makes
/// of `pattern`: `None` where the pattern does not compile, else whether the
/// expression matches somewhere in `text`.
#[verifier::external_body]
fn regex_search(pattern: &str, text: &str) -> (r: Option<bool>)
    ensures
        r.is_some() == regex_valid(pattern@),
        r.is_some() ==> r.unwrap() == regex_match(pattern@, text@),
{
    match regex::Regex::new(pattern) {
        Ok(re) => Some(re.is_match(text)),
        Err(_) => None,
    }
}

/// `pattern` is a regular expression that matches somewhere in `text`.
pub open spec fn pattern_matches(pattern: Seq<char>, text: Seq<char>) -> bool {
    regex_valid(pattern) && regex_match(pattern, text)
}

/// Whether `pattern` is a regular expression.
pub fn is_valid_pattern(pattern: &str) -> (ok: bool)
    ensures
        ok == regex_valid(pattern@),
{
    regex_search(pattern, "").is_some()
}

/// Whether `pattern` matches somewhere in `text`; `false` where `pattern`
/// is no regular expression.
pub fn is_match(pattern: &str, text: &str) -> (b: bool)
    ensures
        b == pattern_matches(pattern@, text@),
{
    found(regex_search(pattern, text))
}

/// What a search that may have failed to start amounts to.
pub fn found(search: Option<bool>) -> (b: bool)
    ensures
        b == (search == Some(true)),
{
    match search {
        Some(b) => b,
        None => false,
    }
}

/// Whether `c` has a meaning of its own in a regular expression.
pub open spec fn is_meta(c: char) -> bool {
    c == '\\' || c == '.' || c == '+' || c == '*' || c == '?' || c == '(' || c == ')' || c == '|'
        || c == '[' || c == ']' || c == '{' || c == '}' || c == '^' || c == '$' || c == '#'
        || c == '&' || c == '-' || c == '~'
}

/// Whether `s` holds a wildcard, `*` or `?`.
pub open spec fn has_wildcard(s: Seq<char>) -> bool {
    s.contains('*') || s.contains('?')
}

/// What a character of a wildcard pattern becomes in a regular expression:
/// `*` any run of characters, `?` any one character, anything else itself.
pub open spec fn wildcard_piece(c: char) -> Seq<char> {
    if c == '*' {
        seq!['.', '*']
    } else if c == '?' {
        seq!['.']
    } else if is_meta(c) {
        seq!['\\', c]
    } else {
        seq![c]
    }
}

/// The pieces of the characters of `s`, one after another.
pub open spec fn wildcard_body(s: Seq<char>) -> Seq<char>
    decreases s.len(),
{
    if s.len() == 0 {
        Seq::empty()
    } else {
        wildcard_body(s.drop_last()) + wildcard_piece(s.last())
    }
}

/// The regular expression that matches exactly the texts that the wildcard
/// pattern `s` describes.
pub open spec fn wildcard_regex(s: Seq<char>) -> Seq<char> {
    seq!['^'] + wildcard_body(s) + seq!['$']
}

pub fn is_meta_char(c: char) -> (b: bool)
    ensures
        b == is_meta(c),
{
    c == '\\' || c == '.' || c == '+' || c == '*' || c == '?' || c == '(' || c == ')' || c == '|'
        || c == '[' || c == ']' || c == '{' || c == '}' || c == '^' || c == '$' || c == '#'
        || c == '&' || c == '-' || c == '~'
}

/// Whether `s` holds `*` or `?`.
pub fn is_glob(s: &str) -> (b: bool)
    ensures
        b == has_wildcard(s@),
{
    let v = chars_of(s);
    let mut i: usize = 0;
    while i < v.len()
        invariant
            i <= v.len(),
            v@ == s@,
            forall|j: int| 0 <= j < i ==> v@[j] != '*' && v@[j] != '?',
        decreases v.len() - i,
    {
        if v[i] == '*' || v[i] == '?' {
            assert(s@[i as int] == v@[i as int]);
            return true;
        }
        i += 1;
    }
    false
}

/// Translates a wildcard pattern into a regular expression.
pub fn convert_glob_to_pattern(s: &str) -> (r: String)
    ensures
        r@ == wildcard_regex(s@),
{
    let v = chars_of(s);
    let mut out: Vec<char> = Vec::new();
    out.push('^');
    let mut i: usize = 0;
    while i < v.len()
        invariant
            i <= v.len(),
            out@ == seq!['^'] + wildcard_body(v@.take(i as int)),
        decreases v.len() - i,
    {
        let c = v[i];
        let ghost before = out@;
        if c == '*' {
            out.push('.');
            out.push('*');
        } else if c == '?' {
            out.push('.');
        } else if is_meta_char(c) {
            out.push('\\');
            out.push(c);
        } else {
            out.push(c);
        }
        i += 1;
        proof {
            assert(v@.take(i as int).drop_last() =~= v@.take(i - 1));
            assert(out@ =~= before + wildcard_piece(c));
            assert(out@ =~= seq!['^'] + wildcard_body(v@.take(i as int)));
        }
    }
    out.push('$');
    proof {
        assert(v@.take(v.len() as int) =~= v@);
        assert(out@ =~= wildcard_regex(s@));
    }
    string_of(&out)
}

} // verus!
