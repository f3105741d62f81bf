//! The library's calls into the regex crate.
//!
//! Two calls are made: escaping a literal so that it can stand in a
//! pattern, and searching a document for a pattern with its context
//! window. Their contracts are the only assumptions the library makes
//! about the regex crate.

use vstd::prelude::*;

verus! {

/// The characters the regex crate treats as meta characters and escapes.
pub open spec fn is_regex_meta(c: char) -> bool {
    c == '\\' || c == '.' || c == '+' || c == '*' || c == '?' || c == '(' || c == ')'
        || c == '|' || c == '[' || c == ']' || c == '{' || c == '}' || c == '^' || c == '$'
        || c == '#' || c == '&' || c == '-' || c == '~'
}

/// A string with a backslash before every meta character.
pub open spec fn regex_escaped(s: Seq<char>) -> Seq<char>
    decreases s.len(),
{
    if s.len() == 0 {
        s
    } else {
        (if is_regex_meta(s[0]) {
            seq!['\\', s[0]]
        } else {
            seq![s[0]]
        }) + regex_escaped(s.skip(1))
    }
}

/// Relies on `regex::escape`: it returns its input with a backslash put
/// before each character of the crate's fixed meta-character set.
#[verifier::external_body]
pub fn regex_escape_str(s: &str) -> (r: String)
    ensures
        r@ == regex_escaped(s@),
{
    regex::escape(s)
}

/// What one pattern's search of one text returns: the first match's groups
/// (the window before, the match itself, the window after), or nothing when
/// the pattern does not compile or does not match. The result is a function
/// of the pattern and the text alone.
pub uninterp spec fn window_search(pattern: Seq<char>, text: Seq<char>) -> Option<
    (Seq<char>, Seq<char>, Seq<char>),
>;

/// Relies on `regex::Regex::new` and `regex::Regex::captures`: compiling a
/// pattern and searching a text are deterministic, and `captures` returns
/// the leftmost match with its capture groups. The pattern handed in here
/// carries three groups; group two is the matched value, groups one and
/// three its context. A pattern that does not compile yields nothing, as
/// does a text without a match.
#[verifier::external_body]
pub fn regex_window_search(pattern: &str, text: &str) -> (r: Option<(String, String, String)>)
    ensures
        match r {
            Some(t) => window_search(pattern@, text@) == Option::Some((t.0@, t.1@, t.2@)),
            None => window_search(pattern@, text@) is None,
        },
{
    let re = match regex::Regex::new(pattern) {
        Ok(re) => re,
        Err(_) => {
            return None;
        },
    };
    re.captures(text).map(
        |caps|
            (
                caps.get(1).map_or("", |m| m.as_str()).to_string(),
                caps.get(2).map_or("", |m| m.as_str()).to_string(),
                caps.get(3).map_or("", |m| m.as_str()).to_string(),
            ),
    )
}

} // verus!
