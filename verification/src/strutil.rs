//! Verified character-level string utilities.
//!
//! The library does its text processing over `Vec<char>` buffers, whose
//! contents Verus can reason about directly, and converts to `String` at the
//! edges.

use vstd::prelude::*;
use vstd::string::*;

verus! {

/// True when `needle` occurs in `hay` starting at position `i`.
pub open spec fn matches_at(hay: Seq<char>, needle: Seq<char>, i: int) -> bool {
    0 <= i && i + needle.len() <= hay.len() && hay.subrange(i, i + needle.len() as int)
        == needle
}

/// True when `needle` occurs somewhere in `hay`.
pub open spec fn contains_sub(hay: Seq<char>, needle: Seq<char>) -> bool {
    exists|i: int| matches_at(hay, needle, i)
}

/// The characters of a string slice, as a vector.
pub fn chars_of(s: &str) -> (v: Vec<char>)
    ensures
        v@ == s@,
{
    let n = s.unicode_len();
    let mut v: Vec<char> = Vec::new();
    let mut i: usize = 0;
    while i < n
        invariant
            n == s@.len(),
            i <= n,
            v@ == s@.subrange(0, i as int),
        decreases n - i,
    {
        v.push(s.get_char(i));
        i += 1;
        assert(v@ =~= s@.subrange(0, i as int));
    }
    assert(v@ =~= s@);
    v
}

/// A `String` with exactly the given characters.
///
/// Relies on `String`'s `FromIterator<char>` implementation from std: the
/// collected string consists of the iterated characters in order.
#[verifier::external_body]
pub fn string_of(v: &[char]) -> (s: String)
    ensures
        s@ == v@,
{
    v.iter().collect()
}

/// Whether `needle` occurs in `hay` at position `i` (both slices unchanged).
pub fn eq_at(hay: &[char], needle: &[char], i: usize) -> (r: bool)
    requires
        i + needle.len() <= hay.len(),
    ensures
        r == matches_at(hay@, needle@, i as int),
{
    let n = needle.len();
    let hl = hay.len();
    let mut j: usize = 0;
    while j < n
        invariant
            n == needle@.len(),
            hl == hay@.len(),
            i + n <= hl,
            j <= n,
            forall|k: int| 0 <= k < j ==> hay@[i + k] == needle@[k],
        decreases n - j,
    {
        if hay[i + j] != needle[j] {
            assert(hay@.subrange(i as int, i + n as int)[j as int] != needle@[j as int]);
            return false;
        }
        j += 1;
    }
    assert(hay@.subrange(i as int, i + n as int) =~= needle@);
    true
}

/// First position where `needle` occurs in `hay`, if any.
pub fn find_sub(hay: &[char], needle: &[char]) -> (r: Option<usize>)
    ensures
        match r {
            Some(i) => matches_at(hay@, needle@, i as int) && forall|j: int|
                0 <= j < i ==> !matches_at(hay@, needle@, j),
            None => !contains_sub(hay@, needle@),
        },
{
    if needle.len() > hay.len() {
        assert(forall|j: int| !matches_at(hay@, needle@, j));
        return None;
    }
    if needle.len() == 0 {
        assert(hay@.subrange(0, 0) =~= needle@);
        return Some(0);
    }
    let last = hay.len() - needle.len();
    let mut i: usize = 0;
    while i <= last
        invariant
            1 <= needle@.len() <= hay@.len(),
            last == hay@.len() - needle@.len(),
            last < usize::MAX,
            i <= last + 1,
            forall|j: int| 0 <= j < i ==> !matches_at(hay@, needle@, j),
        decreases last + 1 - i,
    {
        if eq_at(hay, needle, i) {
            return Some(i);
        }
        i += 1;
    }
    assert(forall|j: int| !matches_at(hay@, needle@, j));
    None
}

/// Whether `needle` occurs anywhere in `hay`.
pub fn has_sub(hay: &[char], needle: &[char]) -> (r: bool)
    ensures
        r == contains_sub(hay@, needle@),
{
    match find_sub(hay, needle) {
        Some(i) => {
            assert(matches_at(hay@, needle@, i as int));
            true
        },
        None => false,
    }
}

/// Whether the two slices hold the same characters.
pub fn chars_eq(a: &[char], b: &[char]) -> (r: bool)
    ensures
        r == (a@ == b@),
{
    if a.len() != b.len() {
        assert(a@.len() != b@.len());
        return false;
    }
    if eq_at(a, b, 0) {
        assert(a@.subrange(0, a@.len() as int) =~= a@);
        true
    } else {
        assert(a@.subrange(0, a@.len() as int) =~= a@);
        false
    }
}

/// Whether `s` starts with `prefix`.
pub fn starts_with(s: &[char], prefix: &[char]) -> (r: bool)
    ensures
        r == matches_at(s@, prefix@, 0),
{
    if prefix.len() > s.len() {
        return false;
    }
    eq_at(s, prefix, 0)
}

/// Index of the first occurrence of `needle` in `hay`, if any.
pub open spec fn find_first(hay: Seq<char>, needle: Seq<char>) -> Option<int>
    decreases hay.len(),
{
    if needle.len() > hay.len() {
        Option::None
    } else if hay.subrange(0, needle.len() as int) == needle {
        Option::Some(0)
    } else if hay.len() == 0 {
        Option::None
    } else {
        match find_first(hay.skip(1), needle) {
            Option::Some(i) => Option::Some(i + 1),
            Option::None => Option::None,
        }
    }
}

/// What [`find_first`] returns: the first match position, or nothing when
/// there is no match at all.
pub proof fn lemma_find_first(hay: Seq<char>, needle: Seq<char>)
    ensures
        match find_first(hay, needle) {
            Option::Some(i) => matches_at(hay, needle, i) && forall|j: int|
                0 <= j < i ==> !matches_at(hay, needle, j),
            Option::None => !contains_sub(hay, needle),
        },
    decreases hay.len(),
{
    if needle.len() > hay.len() {
        assert(forall|j: int| !matches_at(hay, needle, j));
    } else if hay.subrange(0, needle.len() as int) == needle {
        assert(matches_at(hay, needle, 0));
    } else if hay.len() == 0 {
        assert(forall|j: int| !matches_at(hay, needle, j));
    } else {
        lemma_find_first(hay.skip(1), needle);
        assert forall|j: int| 1 <= j <= hay.len() implies #[trigger] matches_at(
            hay,
            needle,
            j,
        ) == matches_at(hay.skip(1), needle, j - 1) by {
            if 0 <= j - 1 && j - 1 + needle.len() <= hay.skip(1).len() {
                assert(hay.skip(1).subrange(j - 1, j - 1 + needle.len() as int)
                    =~= hay.subrange(j, j + needle.len() as int));
            }
        }
        match find_first(hay.skip(1), needle) {
            Option::Some(i) => {
                assert(matches_at(hay.skip(1), needle, i));
                assert(matches_at(hay, needle, i + 1));
                assert forall|j: int| 0 <= j < i + 1 implies !matches_at(hay, needle, j) by {
                    if j == 0 {
                        assert(!matches_at(hay, needle, 0));
                    } else {
                        assert(!matches_at(hay.skip(1), needle, j - 1));
                    }
                }
            },
            Option::None => {
                assert forall|j: int| !matches_at(hay, needle, j) by {
                    if 1 <= j <= hay.len() {
                        assert(!matches_at(hay.skip(1), needle, j - 1));
                    }
                }
            },
        }
    }
}

/// First position of `needle` in `hay`, tied to the [`find_first`] spec.
pub fn find_first_sub(hay: &[char], needle: &[char]) -> (r: Option<usize>)
    ensures
        match r {
            Some(i) => find_first(hay@, needle@) == Option::Some(i as int),
            None => find_first(hay@, needle@) is None,
        },
{
    let r = find_sub(hay, needle);
    proof {
        lemma_find_first(hay@, needle@);
        match r {
            Some(i) => {
                match find_first(hay@, needle@) {
                    Option::Some(k) => {
                        if k < i as int {
                            assert(!matches_at(hay@, needle@, k));
                        }
                        if (i as int) < k {
                            assert(!matches_at(hay@, needle@, i as int));
                        }
                    },
                    Option::None => {
                        assert(contains_sub(hay@, needle@));
                    },
                }
            },
            None => {
                match find_first(hay@, needle@) {
                    Option::Some(k) => {
                        assert(matches_at(hay@, needle@, k));
                        assert(contains_sub(hay@, needle@));
                    },
                    Option::None => {},
                }
            },
        }
    }
    r
}

/// Both the position bounds that a successful [`find_first`] implies.
pub proof fn lemma_find_first_bounds(hay: Seq<char>, needle: Seq<char>)
    requires
        find_first(hay, needle) is Some,
    ensures
        0 <= find_first(hay, needle)->Some_0,
        find_first(hay, needle)->Some_0 + needle.len() <= hay.len(),
{
    lemma_find_first(hay, needle);
}

/// Copy of `s[a..b]` as a fresh vector.
pub fn subrange_vec(s: &[char], a: usize, b: usize) -> (r: Vec<char>)
    requires
        a <= b <= s@.len(),
    ensures
        r@ == s@.subrange(a as int, b as int),
{
    let mut out: Vec<char> = Vec::new();
    let mut i: usize = a;
    while i < b
        invariant
            a <= i <= b <= s@.len(),
            out@ == s@.subrange(a as int, i as int),
        decreases b - i,
    {
        out.push(s[i]);
        i += 1;
        assert(out@ =~= s@.subrange(a as int, i as int));
    }
    out
}

/// `s` with every non-overlapping occurrence of `from` replaced by `to`,
/// scanning left to right and continuing after each replacement.
pub open spec fn replaced(s: Seq<char>, from: Seq<char>, to: Seq<char>) -> Seq<char>
    decreases s.len(),
{
    if s.len() == 0 {
        s
    } else if 0 < from.len() <= s.len() && s.subrange(0, from.len() as int) == from {
        to + replaced(s.skip(from.len() as int), from, to)
    } else {
        seq![s[0]] + replaced(s.skip(1), from, to)
    }
}

/// Replace every occurrence of `from` in `s` by `to`.
pub fn replace_sub(s: &[char], from: &[char], to: &[char]) -> (r: Vec<char>)
    requires
        from@.len() > 0,
    ensures
        r@ == replaced(s@, from@, to@),
{
    let n = s.len();
    let fl = from.len();
    let mut out: Vec<char> = Vec::new();
    let mut i: usize = 0;
    proof {
        assert(s@.skip(0) =~= s@);
        assert(Seq::<char>::empty() + replaced(s@, from@, to@) =~= replaced(s@, from@, to@));
    }
    while i < n
        invariant
            n == s@.len(),
            fl == from@.len(),
            0 < fl,
            i <= n,
            replaced(s@, from@, to@) == out@ + replaced(s@.skip(i as int), from@, to@),
        decreases n - i,
    {
        let ghost pre = out@;
        let ghost rest = s@.skip(i as int);
        assert(rest.len() == n - i);
        if fl <= n - i && eq_at(s, from, i) {
            assert(rest.subrange(0, fl as int) =~= s@.subrange(i as int, i + fl as int));
            out.extend_from_slice(to);
            i += fl;
            proof {
                assert(rest.skip(fl as int) =~= s@.skip(i as int));
                assert(replaced(rest, from@, to@) == to@ + replaced(
                    s@.skip(i as int),
                    from@,
                    to@,
                ));
                assert(out@ =~= pre + to@);
                assert(pre + (to@ + replaced(s@.skip(i as int), from@, to@)) =~= out@
                    + replaced(s@.skip(i as int), from@, to@));
            }
        } else {
            proof {
                if fl <= n - i {
                    assert(rest.subrange(0, fl as int) =~= s@.subrange(
                        i as int,
                        i + fl as int,
                    ));
                }
                assert(!(0 < from@.len() <= rest.len() && rest.subrange(0, fl as int)
                    == from@));
            }
            out.push(s[i]);
            i += 1;
            proof {
                assert(rest.skip(1) =~= s@.skip(i as int));
                assert(rest[0] == s@[i - 1]);
                assert(out@ =~= pre + seq![s@[i - 1]]);
                assert(pre + (seq![s@[i - 1]] + replaced(s@.skip(i as int), from@, to@))
                    =~= out@ + replaced(s@.skip(i as int), from@, to@));
            }
        }
    }
    proof {
        assert(s@.skip(n as int) =~= Seq::<char>::empty());
        assert(replaced(Seq::<char>::empty(), from@, to@) == Seq::<char>::empty());
        assert(out@ + Seq::<char>::empty() =~= out@);
    }
    out
}

/// Helper for [`collapsed`]: `in_run` records whether the previous character
/// belonged to a run of characters from `set` that has already been replaced.
pub open spec fn collapsed_from(
    s: Seq<char>,
    set: Seq<char>,
    rep: char,
    in_run: bool,
) -> Seq<char>
    decreases s.len(),
{
    if s.len() == 0 {
        Seq::<char>::empty()
    } else if set.contains(s[0]) {
        if in_run {
            collapsed_from(s.skip(1), set, rep, true)
        } else {
            seq![rep] + collapsed_from(s.skip(1), set, rep, true)
        }
    } else {
        seq![s[0]] + collapsed_from(s.skip(1), set, rep, false)
    }
}

/// `s` with every maximal nonempty run of characters from `set` replaced by
/// the single character `rep`.
pub open spec fn collapsed(s: Seq<char>, set: Seq<char>, rep: char) -> Seq<char> {
    collapsed_from(s, set, rep, false)
}

/// Whether `c` occurs in `set`.
pub fn contains_char(set: &[char], c: char) -> (r: bool)
    ensures
        r == set@.contains(c),
{
    let n = set.len();
    let mut i: usize = 0;
    while i < n
        invariant
            n == set@.len(),
            i <= n,
            forall|k: int| 0 <= k < i ==> set@[k] != c,
        decreases n - i,
    {
        if set[i] == c {
            return true;
        }
        i += 1;
    }
    false
}

/// Collapse every maximal run of characters from `set` into one `rep`.
pub fn collapse_runs(s: &[char], set: &[char], rep: char) -> (r: Vec<char>)
    ensures
        r@ == collapsed(s@, set@, rep),
{
    let n = s.len();
    let mut out: Vec<char> = Vec::new();
    let mut in_run = false;
    let mut i: usize = 0;
    proof {
        assert(s@.skip(0) =~= s@);
        assert(Seq::<char>::empty() + collapsed(s@, set@, rep) =~= collapsed(s@, set@, rep));
    }
    while i < n
        invariant
            n == s@.len(),
            i <= n,
            collapsed(s@, set@, rep) == out@ + collapsed_from(
                s@.skip(i as int),
                set@,
                rep,
                in_run,
            ),
        decreases n - i,
    {
        let ghost pre = out@;
        let ghost pre_run = in_run;
        let ghost rest = s@.skip(i as int);
        assert(rest.len() == n - i);
        assert(rest[0] == s@[i as int]);
        let c = s[i];
        if contains_char(set, c) {
            if !in_run {
                out.push(rep);
                assert(out@ =~= pre + seq![rep]);
            }
            in_run = true;
        } else {
            out.push(c);
            in_run = false;
            assert(out@ =~= pre + seq![c]);
        }
        i += 1;
        proof {
            assert(rest.skip(1) =~= s@.skip(i as int));
            let tail = collapsed_from(s@.skip(i as int), set@, rep, in_run);
            if set@.contains(rest[0]) {
                if pre_run {
                    assert(collapsed_from(rest, set@, rep, pre_run) == tail);
                } else {
                    assert(collapsed_from(rest, set@, rep, pre_run) == seq![rep] + tail);
                    assert(pre + (seq![rep] + tail) =~= out@ + tail);
                }
            } else {
                assert(collapsed_from(rest, set@, rep, pre_run) == seq![rest[0]] + tail);
                assert(pre + (seq![rest[0]] + tail) =~= out@ + tail);
            }
        }
    }
    proof {
        assert(s@.skip(n as int) =~= Seq::<char>::empty());
        assert(out@ + Seq::<char>::empty() =~= out@);
    }
    out
}

/// Whether `c` counts as blank space for trimming and blank-pattern checks.
pub open spec fn is_blank(c: char) -> bool {
    c == ' ' || c == '\t' || c == '\n' || c == '\r' || c == '\u{b}' || c == '\u{c}'
}

/// Executable form of [`is_blank`].
pub fn blank_char(c: char) -> (r: bool)
    ensures
        r == is_blank(c),
{
    c == ' ' || c == '\t' || c == '\n' || c == '\r' || c == '\u{b}' || c == '\u{c}'
}

/// `s` without its leading blanks.
pub open spec fn trimmed_start(s: Seq<char>) -> Seq<char>
    decreases s.len(),
{
    if s.len() > 0 && is_blank(s[0]) {
        trimmed_start(s.skip(1))
    } else {
        s
    }
}

/// `s` without its trailing blanks.
pub open spec fn trimmed_end(s: Seq<char>) -> Seq<char>
    decreases s.len(),
{
    if s.len() > 0 && is_blank(s[s.len() - 1]) {
        trimmed_end(s.drop_last())
    } else {
        s
    }
}

/// `s` without leading and trailing blanks.
pub open spec fn trimmed(s: Seq<char>) -> Seq<char> {
    trimmed_end(trimmed_start(s))
}

proof fn lemma_trimmed_start_skip(s: Seq<char>, a: int)
    requires
        0 <= a <= s.len(),
        forall|k: int| 0 <= k < a ==> is_blank(s[k]),
        a == s.len() || !is_blank(s[a]),
    ensures
        trimmed_start(s) == s.skip(a),
    decreases a,
{
    if a == 0 {
        assert(s.skip(0) =~= s);
    } else {
        assert(is_blank(s[0]));
        lemma_trimmed_start_skip(s.skip(1), a - 1);
        assert(s.skip(1).skip(a - 1) =~= s.skip(a));
    }
}

proof fn lemma_trimmed_end_take(s: Seq<char>, b: int)
    requires
        0 <= b <= s.len(),
        forall|k: int| b <= k < s.len() ==> is_blank(s[k]),
        b == 0 || !is_blank(s[b - 1]),
    ensures
        trimmed_end(s) == s.take(b),
    decreases s.len() - b,
{
    if b == s.len() {
        assert(s.take(b) =~= s);
    } else {
        assert(is_blank(s[s.len() - 1]));
        lemma_trimmed_end_take(s.drop_last(), b);
        assert(s.drop_last().take(b) =~= s.take(b));
    }
}

/// Copy of `s` without leading and trailing blanks.
pub fn trim_chars(s: &[char]) -> (r: Vec<char>)
    ensures
        r@ == trimmed(s@),
{
    let n = s.len();
    let mut a: usize = 0;
    while a < n && blank_char(s[a])
        invariant
            n == s@.len(),
            a <= n,
            forall|k: int| 0 <= k < a ==> is_blank(s@[k]),
        decreases n - a,
    {
        a += 1;
    }
    proof {
        lemma_trimmed_start_skip(s@, a as int);
    }
    let mut b: usize = n;
    while b > a && blank_char(s[b - 1])
        invariant
            n == s@.len(),
            a <= b <= n,
            forall|k: int| b <= k < n ==> is_blank(s@[k]),
        decreases b,
    {
        b -= 1;
    }
    let r = subrange_vec(s, a, b);
    proof {
        let st = s@.skip(a as int);
        if b == a {
            assert(forall|k: int| a <= k < n ==> is_blank(s@[k]));
            assert(forall|k: int| 0 <= k < st.len() ==> is_blank(st[k]));
            lemma_trimmed_end_take(st, 0);
            assert(st.take(0) =~= s@.subrange(a as int, b as int));
        } else {
            assert(!is_blank(s@[b - 1]));
            assert(forall|k: int| b - a <= k < st.len() ==> is_blank(st[k]));
            assert(st[b - a - 1] == s@[b - 1]);
            lemma_trimmed_end_take(st, b - a);
            assert(st.take(b - a) =~= s@.subrange(a as int, b as int));
        }
    }
    r
}

/// ASCII uppercase letters mapped to lowercase; everything else unchanged.
pub open spec fn to_lower(c: char) -> char {
    if 'A' <= c && c <= 'Z' {
        (((c as u8) + 32) as char)
    } else {
        c
    }
}

/// ASCII lowercase letters mapped to uppercase; everything else unchanged.
pub open spec fn to_upper(c: char) -> char {
    if 'a' <= c && c <= 'z' {
        (((c as u8) - 32) as char)
    } else {
        c
    }
}

/// Copy of `s` with ASCII letters lowercased.
pub fn lower_chars(s: &[char]) -> (r: Vec<char>)
    ensures
        r@ == s@.map_values(|c: char| to_lower(c)),
{
    let n = s.len();
    let mut out: Vec<char> = Vec::new();
    let mut i: usize = 0;
    while i < n
        invariant
            n == s@.len(),
            i <= n,
            out@ == s@.subrange(0, i as int).map_values(|c: char| to_lower(c)),
        decreases n - i,
    {
        let c = s[i];
        if 'A' <= c && c <= 'Z' {
            out.push(((c as u8) + 32) as char);
        } else {
            out.push(c);
        }
        i += 1;
        assert(out@ =~= s@.subrange(0, i as int).map_values(|c: char| to_lower(c)));
    }
    assert(s@.subrange(0, n as int) =~= s@);
    out
}

/// Copy of `s` with ASCII letters uppercased.
pub fn upper_chars(s: &[char]) -> (r: Vec<char>)
    ensures
        r@ == s@.map_values(|c: char| to_upper(c)),
{
    let n = s.len();
    let mut out: Vec<char> = Vec::new();
    let mut i: usize = 0;
    while i < n
        invariant
            n == s@.len(),
            i <= n,
            out@ == s@.subrange(0, i as int).map_values(|c: char| to_upper(c)),
        decreases n - i,
    {
        let c = s[i];
        if 'a' <= c && c <= 'z' {
            out.push(((c as u8) - 32) as char);
        } else {
            out.push(c);
        }
        i += 1;
        assert(out@ =~= s@.subrange(0, i as int).map_values(|c: char| to_upper(c)));
    }
    assert(s@.subrange(0, n as int) =~= s@);
    out
}

/// Whether every character of `s` is blank.
pub fn all_blank(s: &[char]) -> (r: bool)
    ensures
        r == (trimmed(s@).len() == 0),
{
    let t = trim_chars(s);
    t.len() == 0
}

/// Word characters for the word-boundary heuristics: ASCII letters, digits
/// and underscore; characters outside ASCII also count as word characters.
pub open spec fn is_word_char(c: char) -> bool {
    ('a' <= c && c <= 'z') || ('A' <= c && c <= 'Z') || ('0' <= c && c <= '9') || c == '_'
        || (c as u32) > 127
}

/// Executable form of [`is_word_char`].
pub fn word_char(c: char) -> (r: bool)
    ensures
        r == is_word_char(c),
{
    ('a' <= c && c <= 'z') || ('A' <= c && c <= 'Z') || ('0' <= c && c <= '9') || c == '_'
        || (c as u32) > 127
}

/// Whether `c` is an ASCII decimal digit.
pub open spec fn is_digit(c: char) -> bool {
    '0' <= c && c <= '9'
}

/// Executable form of [`is_digit`].
pub fn digit_char(c: char) -> (r: bool)
    ensures
        r == is_digit(c),
{
    '0' <= c && c <= '9'
}

/// Numeric value of an ASCII digit.
pub open spec fn digit_val(c: char) -> int {
    (c as u32) - ('0' as u32)
}

/// The digit character for a value below ten.
pub open spec fn digit_of(d: int) -> char {
    ((d + ('0' as u32)) as u8) as char
}

/// Decimal rendering of `n` (two digits when `n >= 10`, zero-padded form).
pub open spec fn two_digit_chars(n: int) -> Seq<char> {
    seq![digit_of(n / 10), digit_of(n % 10)]
}

/// Decimal rendering of `n < 100` without padding.
pub open spec fn small_num_chars(n: int) -> Seq<char> {
    if n < 10 {
        seq![digit_of(n)]
    } else {
        two_digit_chars(n)
    }
}

/// Two-digit, zero-padded decimal rendering of `n < 100`.
pub fn two_digit_vec(n: u32) -> (r: Vec<char>)
    requires
        n < 100,
    ensures
        r@ == two_digit_chars(n as int),
{
    let mut out: Vec<char> = Vec::new();
    out.push((((n / 10) as u8) + 48) as char);
    out.push((((n % 10) as u8) + 48) as char);
    assert(out@ =~= two_digit_chars(n as int));
    out
}

/// Unpadded decimal rendering of `n < 100`.
pub fn small_num_vec(n: u32) -> (r: Vec<char>)
    requires
        n < 100,
    ensures
        r@ == small_num_chars(n as int),
{
    let mut out: Vec<char> = Vec::new();
    if n < 10 {
        out.push(((n as u8) + 48) as char);
        assert(out@ =~= small_num_chars(n as int));
    } else {
        out.push((((n / 10) as u8) + 48) as char);
        out.push((((n % 10) as u8) + 48) as char);
        assert(out@ =~= small_num_chars(n as int));
    }
    out
}

/// Value of a two-ASCII-digit sequence.
pub open spec fn two_digit_val(s: Seq<char>) -> int {
    digit_val(s[0]) * 10 + digit_val(s[1])
}

/// Parse a two-digit buffer.
pub fn parse_two_digits(s: &[char]) -> (r: u32)
    requires
        s@.len() == 2,
        is_digit(s@[0]),
        is_digit(s@[1]),
    ensures
        r == two_digit_val(s@),
        r < 100,
{
    let d1 = (s[0] as u32) - 48;
    let d0 = (s[1] as u32) - 48;
    d1 * 10 + d0
}

/// Whether some string in `list` has the same characters as `x`.
pub fn contains_string(list: &Vec<String>, x: &String) -> (r: bool)
    ensures
        r == list@.map_values(|s: String| s@).contains(x@),
{
    let n = list.len();
    let ghost lv = list@.map_values(|s: String| s@);
    let mut i: usize = 0;
    while i < n
        invariant
            n == lv.len(),
            lv == list@.map_values(|s: String| s@),
            n == list@.len(),
            i <= n,
            forall|k: int| 0 <= k < i ==> lv[k] != x@,
        decreases n - i,
    {
        assert(lv[i as int] == list@[i as int]@);
        if list[i].eq(x) {
            assert(lv.contains(x@));
            return true;
        }
        i += 1;
    }
    false
}

/// Whether `s` ends with `suffix`.
pub fn ends_with(s: &[char], suffix: &[char]) -> (r: bool)
    ensures
        r == (suffix@.len() <= s@.len() && matches_at(
            s@,
            suffix@,
            s@.len() - suffix@.len(),
        )),
{
    if suffix.len() > s.len() {
        return false;
    }
    eq_at(s, suffix, s.len() - suffix.len())
}

} // verus!
