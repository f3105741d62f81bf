//! Lexicographic ordering of character sequences and optional strings.
//!
//! The merger sorts its records by string-valued keys; this module holds the
//! order itself and the facts (totality, transitivity, antisymmetry) that the
//! sorting proofs rest on.

use vstd::prelude::*;

verus! {

/// Strict lexicographic order on character sequences, by code point.
pub open spec fn lex_lt(a: Seq<char>, b: Seq<char>) -> bool
    decreases a.len(),
{
    if b.len() == 0 {
        false
    } else if a.len() == 0 {
        true
    } else if a[0] != b[0] {
        a[0] < b[0]
    } else {
        lex_lt(a.skip(1), b.skip(1))
    }
}

/// Reflexive lexicographic order on character sequences.
pub open spec fn lex_le(a: Seq<char>, b: Seq<char>) -> bool {
    lex_lt(a, b) || a == b
}

/// Exactly one of `lex_lt(a, b)`, `lex_lt(b, a)`, `a == b` holds.
pub proof fn lemma_lex_connected(a: Seq<char>, b: Seq<char>)
    ensures
        lex_lt(a, b) || lex_lt(b, a) || a == b,
        lex_lt(a, b) ==> !lex_lt(b, a) && a != b,
    decreases a.len(),
{
    if a.len() == 0 || b.len() == 0 {
        if a.len() == 0 && b.len() == 0 {
            assert(a =~= b);
        }
    } else if a[0] == b[0] {
        lemma_lex_connected(a.skip(1), b.skip(1));
        if a.skip(1) == b.skip(1) {
            assert(a =~= seq![a[0]] + a.skip(1));
            assert(b =~= seq![b[0]] + b.skip(1));
        }
        if a == b {
            assert(a.skip(1) =~= b.skip(1));
        }
    } else {
        if a == b {
            assert(a[0] == b[0]);
        }
    }
}

/// Lexicographic order is transitive.
pub proof fn lemma_lex_trans(a: Seq<char>, b: Seq<char>, c: Seq<char>)
    requires
        lex_lt(a, b),
        lex_lt(b, c),
    ensures
        lex_lt(a, c),
    decreases a.len(),
{
    if c.len() == 0 {
        // lex_lt(b, c) is false: contradiction handled by requires
    } else if b.len() == 0 {
    } else if a.len() == 0 {
    } else {
        if a[0] == b[0] && b[0] == c[0] {
            lemma_lex_trans(a.skip(1), b.skip(1), c.skip(1));
        }
    }
}

/// Strict order on optional strings: absent sorts before present.
pub open spec fn opt_lex_lt(a: Option<Seq<char>>, b: Option<Seq<char>>) -> bool {
    match b {
        Option::None => false,
        Option::Some(y) => match a {
            Option::None => true,
            Option::Some(x) => lex_lt(x, y),
        },
    }
}

/// Exactly one of `opt_lex_lt(a, b)`, `opt_lex_lt(b, a)`, `a == b` holds.
pub proof fn lemma_opt_lex_connected(a: Option<Seq<char>>, b: Option<Seq<char>>)
    ensures
        opt_lex_lt(a, b) || opt_lex_lt(b, a) || a == b,
        opt_lex_lt(a, b) ==> !opt_lex_lt(b, a) && a != b,
{
    match (a, b) {
        (Option::Some(x), Option::Some(y)) => {
            lemma_lex_connected(x, y);
        },
        _ => {},
    }
}

/// Order on optional strings is transitive.
pub proof fn lemma_opt_lex_trans(
    a: Option<Seq<char>>,
    b: Option<Seq<char>>,
    c: Option<Seq<char>>,
)
    requires
        opt_lex_lt(a, b),
        opt_lex_lt(b, c),
    ensures
        opt_lex_lt(a, c),
{
    match (a, b, c) {
        (Option::Some(x), Option::Some(y), Option::Some(z)) => {
            lemma_lex_trans(x, y, z);
        },
        _ => {},
    }
}

/// Compare two character slices lexicographically (strict).
pub fn chars_lt(a: &[char], b: &[char]) -> (r: bool)
    ensures
        r == lex_lt(a@, b@),
{
    let an = a.len();
    let bn = b.len();
    let mut i: usize = 0;
    proof {
        assert(a@.skip(0) =~= a@);
        assert(b@.skip(0) =~= b@);
    }
    while i < an && i < bn
        invariant
            an == a@.len(),
            bn == b@.len(),
            i <= an,
            i <= bn,
            lex_lt(a@, b@) == lex_lt(a@.skip(i as int), b@.skip(i as int)),
        decreases an - i,
    {
        let ghost ar = a@.skip(i as int);
        let ghost br = b@.skip(i as int);
        assert(ar[0] == a@[i as int] && br[0] == b@[i as int]);
        if a[i] != b[i] {
            return a[i] < b[i];
        }
        i += 1;
        proof {
            assert(ar.skip(1) =~= a@.skip(i as int));
            assert(br.skip(1) =~= b@.skip(i as int));
        }
    }
    proof {
        let ar = a@.skip(i as int);
        let br = b@.skip(i as int);
        if i >= bn {
            assert(br.len() == 0);
            assert(!lex_lt(ar, br));
        } else {
            assert(ar.len() == 0 && br.len() > 0);
        }
    }
    i < bn
}

/// Compare two strings lexicographically (strict).
pub fn string_lt(a: &String, b: &String) -> (r: bool)
    ensures
        r == lex_lt(a@, b@),
{
    let av = crate::strutil::chars_of(a.as_str());
    let bv = crate::strutil::chars_of(b.as_str());
    chars_lt(av.as_slice(), bv.as_slice())
}

/// View of an optional string.
pub open spec fn opt_view(o: Option<String>) -> Option<Seq<char>> {
    match o {
        Option::None => Option::None,
        Option::Some(s) => Option::Some(s@),
    }
}

/// Compare two optional strings (absent first, strict).
pub fn opt_string_lt(a: &Option<String>, b: &Option<String>) -> (r: bool)
    ensures
        r == opt_lex_lt(opt_view(*a), opt_view(*b)),
{
    match (a, b) {
        (Option::None, Option::Some(_)) => true,
        (Option::Some(x), Option::Some(y)) => string_lt(x, y),
        _ => false,
    }
}

/// Equality of two optional strings, by contents.
pub fn opt_string_eq(a: &Option<String>, b: &Option<String>) -> (r: bool)
    ensures
        r == (opt_view(*a) == opt_view(*b)),
{
    match (a, b) {
        (Option::None, Option::None) => true,
        (Option::Some(x), Option::Some(y)) => x.eq(y),
        _ => false,
    }
}

} // verus!
