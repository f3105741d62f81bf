//! Searching for items whose label matches a human name written with
//! initials: the query-parameter builder. The database search itself is
//! left to the caller.

use vstd::prelude::*;

use crate::strutil::{chars_of, is_word_char, string_of, word_char};

verus! {

/// Whether `c` is an ASCII capital letter.
pub open spec fn is_ascii_upper(c: char) -> bool {
    'A' <= c && c <= 'Z'
}

/// Number of leading plain spaces of `s`.
pub open spec fn leading_spaces(s: Seq<char>) -> int
    decreases s.len(),
{
    if s.len() > 0 && s[0] == ' ' {
        1 + leading_spaces(s.skip(1))
    } else {
        0
    }
}

/// Whether an initial stands at the front of `s` (given whether the
/// previous character was a word character): a lone capital letter, not
/// followed by another word character.
pub open spec fn initial_at_front(s: Seq<char>, prev_word: bool) -> bool {
    &&& !prev_word
    &&& s.len() > 0
    &&& is_ascii_upper(s[0])
    &&& (s.len() == 1 || !is_word_char(s[1]))
}

/// How many characters an initial match at the front of `s` consumes: the
/// letter, an optional dot, and the following run of spaces.
pub open spec fn initial_match_len(s: Seq<char>) -> int {
    let after_dot: int = if s.len() >= 2 && s[1] == '.' {
        2
    } else {
        1
    };
    after_dot + leading_spaces(s.skip(after_dot))
}

/// Each initial (a lone capital letter, an optional dot, trailing spaces)
/// replaced by the letter followed by `suffix`; `prev_word` records whether
/// the character before `s` was a word character.
pub open spec fn initials_replaced_from(
    s: Seq<char>,
    suffix: Seq<char>,
    prev_word: bool,
) -> Seq<char>
    decreases s.len(),
{
    if s.len() == 0 {
        s
    } else if initial_at_front(s, prev_word) && 1 <= initial_match_len(s)
        && initial_match_len(s) <= s.len() {
        let w = initial_match_len(s);
        seq![s[0]] + suffix + initials_replaced_from(s.skip(w), suffix, false)
    } else {
        seq![s[0]] + initials_replaced_from(s.skip(1), suffix, is_word_char(s[0]))
    }
}

/// Each initial of `s` replaced by its letter followed by `suffix`.
pub open spec fn initials_replaced(s: Seq<char>, suffix: Seq<char>) -> Seq<char> {
    initials_replaced_from(s, suffix, false)
}

/// Searches for items with a label that matches a human name with
/// initials.
pub struct InitialSearch {}

/// Count the spaces at and after position `from`.
fn count_spaces_from(s: &[char], from: usize) -> (r: usize)
    requires
        from <= s@.len(),
    ensures
        r == leading_spaces(s@.skip(from as int)),
        from + r <= s@.len(),
{
    let n = s.len();
    let mut k: usize = from;
    while k < n && s[k] == ' '
        invariant
            n == s@.len(),
            from <= k <= n,
            leading_spaces(s@.skip(from as int)) == (k - from) + leading_spaces(
                s@.skip(k as int),
            ),
        decreases n - k,
    {
        let ghost rest = s@.skip(k as int);
        assert(rest[0] == s@[k as int]);
        k += 1;
        proof {
            assert(rest.skip(1) =~= s@.skip(k as int));
            assert(leading_spaces(rest) == 1 + leading_spaces(s@.skip(k as int)));
        }
    }
    proof {
        let rest = s@.skip(k as int);
        if k < n {
            assert(rest[0] == s@[k as int]);
            assert(leading_spaces(rest) == 0);
        } else {
            assert(rest.len() == 0);
            assert(leading_spaces(rest) == 0);
        }
    }
    k - from
}

/// Replace each initial of `s` by its letter followed by `suffix`.
fn replace_initials(s: &[char], suffix: &[char]) -> (r: Vec<char>)
    ensures
        r@ == initials_replaced(s@, suffix@),
{
    let n = s.len();
    let mut out: Vec<char> = Vec::new();
    let mut prev_word = false;
    let mut i: usize = 0;
    proof {
        assert(s@.skip(0) =~= s@);
        assert(Seq::<char>::empty() + initials_replaced_from(s@, suffix@, false)
            =~= initials_replaced_from(s@, suffix@, false));
    }
    while i < n
        invariant
            n == s@.len(),
            i <= n,
            initials_replaced(s@, suffix@) == out@ + initials_replaced_from(
                s@.skip(i as int),
                suffix@,
                prev_word,
            ),
        decreases n - i,
    {
        let ghost pre = out@;
        let ghost pw = prev_word;
        let ghost rest = s@.skip(i as int);
        assert(rest.len() == n - i);
        assert(rest[0] == s@[i as int]);
        let c = s[i];
        let is_upper = 'A' <= c && c <= 'Z';
        let boundary_after = i + 1 == n || !word_char(s[i + 1]);
        proof {
            if i + 1 < n {
                assert(rest[1] == s@[i + 1]);
            }
        }
        if !prev_word && is_upper && boundary_after {
            assert(initial_at_front(rest, pw));
            let after_dot: usize = if i + 1 < n && s[i + 1] == '.' {
                2
            } else {
                1
            };
            let w = count_spaces_from(s, i + after_dot);
            proof {
                assert(s@.skip((i + after_dot) as int) =~= rest.skip(after_dot as int));
                assert(initial_match_len(rest) == after_dot + leading_spaces(
                    rest.skip(after_dot as int),
                ));
                assert(initial_match_len(rest) == after_dot + w);
            }
            out.push(c);
            out.extend_from_slice(suffix);
            i = i + after_dot + w;
            prev_word = false;
            proof {
                assert(rest.skip((after_dot + w) as int) =~= s@.skip(i as int));
                assert(out@ =~= pre + seq![rest[0]] + suffix@);
                assert(initials_replaced_from(rest, suffix@, pw) == seq![rest[0]] + suffix@
                    + initials_replaced_from(s@.skip(i as int), suffix@, false));
                assert(pre + (seq![rest[0]] + suffix@ + initials_replaced_from(
                    s@.skip(i as int),
                    suffix@,
                    false,
                )) =~= out@ + initials_replaced_from(s@.skip(i as int), suffix@, false));
            }
        } else {
            proof {
                assert(!initial_at_front(rest, pw));
            }
            out.push(c);
            prev_word = word_char(c);
            i += 1;
            proof {
                assert(rest.skip(1) =~= s@.skip(i as int));
                assert(out@ =~= pre + seq![rest[0]]);
                assert(initials_replaced_from(rest, suffix@, pw) == seq![rest[0]]
                    + initials_replaced_from(s@.skip(i as int), suffix@, is_word_char(
                    rest[0],
                )));
                assert(pre + (seq![rest[0]] + initials_replaced_from(
                    s@.skip(i as int),
                    suffix@,
                    is_word_char(rest[0]),
                )) =~= out@ + initials_replaced_from(s@.skip(i as int), suffix@, is_word_char(
                    rest[0],
                )));
            }
        }
    }
    proof {
        assert(s@.skip(n as int) =~= Seq::<char>::empty());
        assert(out@ + Seq::<char>::empty() =~= out@);
    }
    out
}

impl InitialSearch {
    /// The two query parameters built from a name with initials: the
    /// wildcard form (each initial becomes its letter and `%_`) and the
    /// anchored pattern form (each initial becomes its letter and `.*? `).
    pub fn generate_query_parameters(query: &str) -> (r: (String, String))
        ensures
            r.0@ == initials_replaced(query@, "%_"@),
            r.1@ == "^"@ + initials_replaced(query@, ".*? "@) + "$"@,
    {
        let qv = chars_of(query);
        let wild = chars_of("%_");
        let q1 = replace_initials(qv.as_slice(), wild.as_slice());
        let pat = chars_of(".*? ");
        let q2core = replace_initials(qv.as_slice(), pat.as_slice());
        let caret = chars_of("^");
        let dollar = chars_of("$");
        let mut q2: Vec<char> = Vec::new();
        q2.extend_from_slice(caret.as_slice());
        q2.extend_from_slice(q2core.as_slice());
        q2.extend_from_slice(dollar.as_slice());
        proof {
            assert(q2@ =~= "^"@ + initials_replaced(query@, ".*? "@) + "$"@);
        }
        (string_of(q1.as_slice()), string_of(q2.as_slice()))
    }
}

} // verus!
