//! The text normalizer: flattens raw HTML into whitespace-normalized plain
//! text for substring search.
//!
//! The passes run in a fixed order: newlines become spaces, everything
//! outside the body region is cut away, comments go, block-closing tags and
//! line breaks become newlines, every remaining tag becomes a space, and
//! whitespace is collapsed. The output is search text, not a faithful
//! rendering.

use vstd::prelude::*;

use crate::strutil::{
    chars_of, collapse_runs, collapsed, eq_at, find_first, find_first_sub, is_blank,
    lemma_find_first_bounds, matches_at, replace_sub, replaced, string_of, subrange_vec,
};

verus! {

/// The text after the first `<body ...>` opening, or all of it when there
/// is none.
pub open spec fn cut_after_body_open(s: Seq<char>) -> Seq<char> {
    match find_first(s, "<body"@) {
        Option::Some(b) => match find_first(s.skip(b), ">"@) {
            Option::Some(c) => if 0 <= b && 0 <= c && b + c + 1 <= s.len() {
                s.skip(b + c + 1)
            } else {
                s
            },
            Option::None => s,
        },
        Option::None => s,
    }
}

/// The text before the first `</body>`, or all of it when there is none.
pub open spec fn cut_before_body_close(s: Seq<char>) -> Seq<char> {
    match find_first(s, "</body>"@) {
        Option::Some(e) => if 0 <= e <= s.len() {
            s.take(e)
        } else {
            s
        },
        Option::None => s,
    }
}

/// The text with each comment (`<!--` up to the next `-->`) replaced by one
/// space; a comment that never closes is kept as it stands.
pub open spec fn strip_comments(s: Seq<char>) -> Seq<char>
    decreases s.len(),
{
    if s.len() == 0 {
        s
    } else if s.len() >= 4 && matches_at(s, "<!--"@, 0) {
        match find_first(s.skip(4), "-->"@) {
            Option::Some(j) => if 0 <= j && 7 + j <= s.len() {
                seq![' '] + strip_comments(s.skip(7 + j))
            } else {
                s
            },
            Option::None => s,
        }
    } else {
        seq![s[0]] + strip_comments(s.skip(1))
    }
}

/// The text with each closing `</p>`, `</div>` or `</br>` tag replaced by a
/// newline.
pub open spec fn break_close_tags(s: Seq<char>) -> Seq<char>
    decreases s.len(),
{
    if s.len() == 0 {
        s
    } else if s.len() >= 4 && matches_at(s, "</p>"@, 0) {
        seq!['\n'] + break_close_tags(s.skip(4))
    } else if s.len() >= 6 && matches_at(s, "</div>"@, 0) {
        seq!['\n'] + break_close_tags(s.skip(6))
    } else if s.len() >= 5 && matches_at(s, "</br>"@, 0) {
        seq!['\n'] + break_close_tags(s.skip(5))
    } else {
        seq![s[0]] + break_close_tags(s.skip(1))
    }
}

/// Number of leading blank characters of `s`.
pub open spec fn leading_blanks(s: Seq<char>) -> int
    decreases s.len(),
{
    if s.len() > 0 && is_blank(s[0]) {
        1 + leading_blanks(s.skip(1))
    } else {
        0
    }
}

/// The text with each self-closing `<br ... />` (any run of blanks between)
/// replaced by a newline.
pub open spec fn break_self_close_br(s: Seq<char>) -> Seq<char>
    decreases s.len(),
{
    if s.len() == 0 {
        s
    } else if s.len() >= 3 && matches_at(s, "<br"@, 0) && 0 <= leading_blanks(s.skip(3))
        && 5 + leading_blanks(s.skip(3)) <= s.len() && matches_at(
        s,
        "/>"@,
        3 + leading_blanks(s.skip(3)),
    ) {
        seq!['\n'] + break_self_close_br(s.skip(5 + leading_blanks(s.skip(3))))
    } else {
        seq![s[0]] + break_self_close_br(s.skip(1))
    }
}

/// No newline stands in `s[a..b]`.
pub open spec fn no_newline_range(s: Seq<char>, a: int, b: int) -> bool {
    forall|m: int| a <= m < b ==> s[m] != '\n'
}

/// Whether a tag starts at the front of `s`: a `<`, at least one character,
/// and a closing `>` with no newline in between.
pub open spec fn tag_at_front(s: Seq<char>) -> bool {
    s.len() > 0 && s[0] == '<' && (match find_first(s.skip(2), ">"@) {
        Option::Some(j) => 0 <= j && j + 3 <= s.len() && no_newline_range(s, 1, j + 2),
        Option::None => false,
    })
}

/// The text with every remaining tag replaced by one space. A tag is a `<`,
/// one or more characters none of which is a newline, and the nearest `>`.
pub open spec fn strip_tags(s: Seq<char>) -> Seq<char>
    decreases s.len(),
{
    if s.len() == 0 {
        s
    } else if tag_at_front(s) {
        seq![' '] + strip_tags(s.skip(find_first(s.skip(2), ">"@)->Some_0 + 3))
    } else {
        seq![s[0]] + strip_tags(s.skip(1))
    }
}

/// The whole normalization: what [`html2text`] returns.
pub open spec fn spec_html2text(html: Seq<char>) -> Seq<char> {
    let flat = replaced(html, "\n"@, " "@);
    let body = cut_before_body_close(cut_after_body_open(flat));
    let no_comments = strip_comments(body);
    let with_breaks = break_self_close_br(break_close_tags(no_comments));
    let no_tags = strip_tags(with_breaks);
    let one_space = collapsed(no_tags, seq!['\r', '\t', ' '], ' ');
    let tight = replaced(replaced(one_space, " \n"@, "\n"@), "\n "@, "\n"@);
    collapsed(collapsed(tight, seq!['\n'], '\n'), seq![' '], ' ')
}

/// Cut everything up to and including the first `<body ...>` opening.
fn cut_body_open(s: &[char]) -> (r: Vec<char>)
    ensures
        r@ == cut_after_body_open(s@),
{
    proof {
        reveal_strlit("<body");
        reveal_strlit(">");
    }
    let n = s.len();
    let open_tag = chars_of("<body");
    match find_first_sub(s, open_tag.as_slice()) {
        Some(b) => {
            proof {
                lemma_find_first_bounds(s@, "<body"@);
            }
            let gt = chars_of(">");
            let tail = subrange_vec(s, b, n);
            proof {
                assert(tail@ =~= s@.skip(b as int));
            }
            match find_first_sub(tail.as_slice(), gt.as_slice()) {
                Some(c) => {
                    proof {
                        lemma_find_first_bounds(s@.skip(b as int), ">"@);
                    }
                    let r = subrange_vec(s, b + c + 1, n);
                    proof {
                        assert(r@ =~= s@.skip(b + c + 1));
                    }
                    r
                },
                None => {
                    let r = subrange_vec(s, 0, n);
                    proof {
                        assert(r@ =~= s@);
                    }
                    r
                },
            }
        },
        None => {
            let r = subrange_vec(s, 0, n);
            proof {
                assert(r@ =~= s@);
            }
            r
        },
    }
}

/// Cut everything from the first `</body>` on.
fn cut_body_close(s: &[char]) -> (r: Vec<char>)
    ensures
        r@ == cut_before_body_close(s@),
{
    proof {
        reveal_strlit("</body>");
    }
    let n = s.len();
    let close_tag = chars_of("</body>");
    match find_first_sub(s, close_tag.as_slice()) {
        Some(e) => {
            proof {
                lemma_find_first_bounds(s@, "</body>"@);
            }
            let r = subrange_vec(s, 0, e);
            proof {
                assert(r@ =~= s@.take(e as int));
            }
            r
        },
        None => {
            let r = subrange_vec(s, 0, n);
            proof {
                assert(r@ =~= s@.take(n as int));
                assert(s@.take(n as int) =~= s@);
            }
            r
        },
    }
}

/// Replace each closed comment by one space.
fn strip_comments_pass(s: &[char]) -> (r: Vec<char>)
    ensures
        r@ == strip_comments(s@),
{
    let n = s.len();
    let open_mark = chars_of("<!--");
    let close_mark = chars_of("-->");
    proof {
        reveal_strlit("<!--");
        reveal_strlit("-->");
        assert(s@.skip(0) =~= s@);
        assert(Seq::<char>::empty() + strip_comments(s@) =~= strip_comments(s@));
    }
    let mut out: Vec<char> = Vec::new();
    let mut i: usize = 0;
    while i < n
        invariant
            n == s@.len(),
            open_mark@ == "<!--"@,
            close_mark@ == "-->"@,
            "<!--"@.len() == 4,
            "-->"@.len() == 3,
            i <= n,
            strip_comments(s@) == out@ + strip_comments(s@.skip(i as int)),
        decreases n - i,
    {
        let ghost pre = out@;
        let ghost rest = s@.skip(i as int);
        assert(rest.len() == n - i);
        assert(rest[0] == s@[i as int]);
        if n - i >= 4 && eq_at(s, open_mark.as_slice(), i) {
            proof {
                assert(rest.subrange(0, 4) =~= s@.subrange(i as int, i + 4));
                assert(matches_at(rest, "<!--"@, 0));
            }
            let after = subrange_vec(s, i + 4, n);
            proof {
                assert(after@ =~= rest.skip(4));
            }
            match find_first_sub(after.as_slice(), close_mark.as_slice()) {
                Some(j) => {
                    proof {
                        lemma_find_first_bounds(rest.skip(4), "-->"@);
                        assert(7 + j <= rest.len());
                        assert(strip_comments(rest) == seq![' '] + strip_comments(
                            rest.skip(7 + j),
                        ));
                    }
                    out.push(' ');
                    i = i + 7 + j;
                    proof {
                        assert(rest.skip(7 + j) =~= s@.skip(i as int));
                        assert(out@ =~= pre + seq![' ']);
                        assert(pre + (seq![' '] + strip_comments(s@.skip(i as int)))
                            =~= out@ + strip_comments(s@.skip(i as int)));
                    }
                },
                None => {
                    proof {
                        assert(strip_comments(rest) == rest);
                    }
                    let mut tail = subrange_vec(s, i, n);
                    out.append(&mut tail);
                    i = n;
                    proof {
                        assert(s@.skip(n as int) =~= Seq::<char>::empty());
                        assert(strip_comments(Seq::<char>::empty())
                            =~= Seq::<char>::empty());
                        assert(out@ =~= pre + rest);
                        assert(out@ + Seq::<char>::empty() =~= pre + strip_comments(rest));
                    }
                },
            }
        } else {
            proof {
                if n - i >= 4 {
                    assert(rest.subrange(0, 4) =~= s@.subrange(i as int, i + 4));
                }
                assert(!(rest.len() >= 4 && matches_at(rest, "<!--"@, 0)));
                assert(strip_comments(rest) == seq![rest[0]] + strip_comments(rest.skip(1)));
            }
            out.push(s[i]);
            i += 1;
            proof {
                assert(rest.skip(1) =~= s@.skip(i as int));
                assert(out@ =~= pre + seq![rest[0]]);
                assert(pre + (seq![rest[0]] + strip_comments(s@.skip(i as int))) =~= out@
                    + strip_comments(s@.skip(i as int)));
            }
        }
    }
    proof {
        assert(s@.skip(n as int) =~= Seq::<char>::empty());
        assert(out@ + Seq::<char>::empty() =~= out@);
    }
    out
}

/// Replace each closing `</p>`, `</div>`, `</br>` by a newline.
fn break_close_tags_pass(s: &[char]) -> (r: Vec<char>)
    ensures
        r@ == break_close_tags(s@),
{
    let n = s.len();
    let tag_p = chars_of("</p>");
    let tag_div = chars_of("</div>");
    let tag_br = chars_of("</br>");
    proof {
        reveal_strlit("</p>");
        reveal_strlit("</div>");
        reveal_strlit("</br>");
        assert(s@.skip(0) =~= s@);
        assert(Seq::<char>::empty() + break_close_tags(s@) =~= break_close_tags(s@));
    }
    let mut out: Vec<char> = Vec::new();
    let mut i: usize = 0;
    while i < n
        invariant
            n == s@.len(),
            tag_p@ == "</p>"@,
            tag_div@ == "</div>"@,
            tag_br@ == "</br>"@,
            "</p>"@.len() == 4,
            "</div>"@.len() == 6,
            "</br>"@.len() == 5,
            i <= n,
            break_close_tags(s@) == out@ + break_close_tags(s@.skip(i as int)),
        decreases n - i,
    {
        let ghost pre = out@;
        let ghost rest = s@.skip(i as int);
        assert(rest.len() == n - i);
        assert(rest[0] == s@[i as int]);
        let m_p = n - i >= 4 && eq_at(s, tag_p.as_slice(), i);
        let m_div = n - i >= 6 && eq_at(s, tag_div.as_slice(), i);
        let m_br = n - i >= 5 && eq_at(s, tag_br.as_slice(), i);
        proof {
            if n - i >= 4 {
                assert(rest.subrange(0, 4) =~= s@.subrange(i as int, i + 4));
            }
            if n - i >= 6 {
                assert(rest.subrange(0, 6) =~= s@.subrange(i as int, i + 6));
            }
            if n - i >= 5 {
                assert(rest.subrange(0, 5) =~= s@.subrange(i as int, i + 5));
            }
            assert(m_p == (rest.len() >= 4 && matches_at(rest, "</p>"@, 0)));
            assert(m_div == (rest.len() >= 6 && matches_at(rest, "</div>"@, 0)));
            assert(m_br == (rest.len() >= 5 && matches_at(rest, "</br>"@, 0)));
        }
        if m_p {
            out.push('\n');
            i += 4;
        } else if m_div {
            out.push('\n');
            i += 6;
        } else if m_br {
            out.push('\n');
            i += 5;
        } else {
            out.push(s[i]);
            i += 1;
        }
        proof {
            assert(rest.skip(4) =~= s@.skip(i as int) || !m_p);
            let tail = break_close_tags(s@.skip(i as int));
            if m_p {
                assert(rest.skip(4) =~= s@.skip(i as int));
                assert(break_close_tags(rest) == seq!['\n'] + tail);
                assert(out@ =~= pre + seq!['\n']);
                assert(pre + (seq!['\n'] + tail) =~= out@ + tail);
            } else if m_div {
                assert(rest.skip(6) =~= s@.skip(i as int));
                assert(break_close_tags(rest) == seq!['\n'] + tail);
                assert(out@ =~= pre + seq!['\n']);
                assert(pre + (seq!['\n'] + tail) =~= out@ + tail);
            } else if m_br {
                assert(rest.skip(5) =~= s@.skip(i as int));
                assert(break_close_tags(rest) == seq!['\n'] + tail);
                assert(out@ =~= pre + seq!['\n']);
                assert(pre + (seq!['\n'] + tail) =~= out@ + tail);
            } else {
                assert(rest.skip(1) =~= s@.skip(i as int));
                assert(break_close_tags(rest) == seq![rest[0]] + tail);
                assert(out@ =~= pre + seq![rest[0]]);
                assert(pre + (seq![rest[0]] + tail) =~= out@ + tail);
            }
        }
    }
    proof {
        assert(s@.skip(n as int) =~= Seq::<char>::empty());
        assert(out@ + Seq::<char>::empty() =~= out@);
    }
    out
}

/// Count the blanks at and after position `from`.
fn count_blanks_from(s: &[char], from: usize) -> (r: usize)
    requires
        from <= s@.len(),
    ensures
        r == leading_blanks(s@.skip(from as int)),
        from + r <= s@.len(),
{
    let n = s.len();
    let mut k: usize = from;
    while k < n && crate::strutil::blank_char(s[k])
        invariant
            n == s@.len(),
            from <= k <= n,
            leading_blanks(s@.skip(from as int)) == (k - from) + leading_blanks(
                s@.skip(k as int),
            ),
        decreases n - k,
    {
        let ghost rest = s@.skip(k as int);
        assert(rest[0] == s@[k as int]);
        k += 1;
        proof {
            assert(rest.skip(1) =~= s@.skip(k as int));
            assert(leading_blanks(rest) == 1 + leading_blanks(s@.skip(k as int)));
        }
    }
    proof {
        let rest = s@.skip(k as int);
        if k < n {
            assert(rest[0] == s@[k as int]);
            assert(!is_blank(rest[0]));
            assert(leading_blanks(rest) == 0);
        } else {
            assert(rest.len() == 0);
            assert(leading_blanks(rest) == 0);
        }
    }
    k - from
}

/// Replace each self-closing `<br ... />` by a newline.
fn break_self_close_br_pass(s: &[char]) -> (r: Vec<char>)
    ensures
        r@ == break_self_close_br(s@),
{
    let n = s.len();
    let tag_open = chars_of("<br");
    let tag_close = chars_of("/>");
    proof {
        reveal_strlit("<br");
        reveal_strlit("/>");
        assert(s@.skip(0) =~= s@);
        assert(Seq::<char>::empty() + break_self_close_br(s@) =~= break_self_close_br(s@));
    }
    let mut out: Vec<char> = Vec::new();
    let mut i: usize = 0;
    while i < n
        invariant
            n == s@.len(),
            tag_open@ == "<br"@,
            tag_close@ == "/>"@,
            "<br"@.len() == 3,
            "/>"@.len() == 2,
            i <= n,
            break_self_close_br(s@) == out@ + break_self_close_br(s@.skip(i as int)),
        decreases n - i,
    {
        let ghost pre = out@;
        let ghost rest = s@.skip(i as int);
        assert(rest.len() == n - i);
        assert(rest[0] == s@[i as int]);
        let mut matched = false;
        let mut w: usize = 0;
        if n - i >= 3 && eq_at(s, tag_open.as_slice(), i) {
            proof {
                assert(rest.subrange(0, 3) =~= s@.subrange(i as int, i + 3));
                assert(matches_at(rest, "<br"@, 0));
            }
            w = count_blanks_from(s, i + 3);
            proof {
                assert(s@.skip(i + 3) =~= rest.skip(3));
            }
            if n - (i + 3 + w) >= 2 && eq_at(s, tag_close.as_slice(), i + 3 + w) {
                proof {
                    assert(rest.subrange(3 + w as int, 5 + w as int) =~= s@.subrange(
                        i + 3 + w as int,
                        i + 5 + w as int,
                    ));
                    assert(matches_at(rest, "/>"@, 3 + w as int));
                }
                matched = true;
            }
        }
        if matched {
            proof {
                assert(rest.len() >= 3 && matches_at(rest, "<br"@, 0));
                assert(leading_blanks(rest.skip(3)) == w);
                assert(5 + leading_blanks(rest.skip(3)) <= rest.len());
                assert(matches_at(rest, "/>"@, 3 + leading_blanks(rest.skip(3))));
                assert(break_self_close_br(rest) == seq!['\n'] + break_self_close_br(
                    rest.skip(5 + w as int),
                ));
            }
            out.push('\n');
            i = i + 5 + w;
            proof {
                assert(rest.skip(5 + w as int) =~= s@.skip(i as int));
                assert(out@ =~= pre + seq!['\n']);
                assert(pre + (seq!['\n'] + break_self_close_br(s@.skip(i as int))) =~= out@
                    + break_self_close_br(s@.skip(i as int)));
            }
        } else {
            proof {
                if n - i >= 3 {
                    assert(rest.subrange(0, 3) =~= s@.subrange(i as int, i + 3));
                }
                if rest.len() >= 3 && matches_at(rest, "<br"@, 0) {
                    assert(leading_blanks(rest.skip(3)) == w);
                    if 5 + w <= rest.len() {
                        assert(rest.subrange(3 + w as int, 5 + w as int) =~= s@.subrange(
                            i + 3 + w as int,
                            i + 5 + w as int,
                        ));
                        assert(!matches_at(rest, "/>"@, 3 + w as int));
                    }
                }
                assert(break_self_close_br(rest) == seq![rest[0]] + break_self_close_br(
                    rest.skip(1),
                ));
            }
            out.push(s[i]);
            i += 1;
            proof {
                assert(rest.skip(1) =~= s@.skip(i as int));
                assert(out@ =~= pre + seq![rest[0]]);
                assert(pre + (seq![rest[0]] + break_self_close_br(s@.skip(i as int)))
                    =~= out@ + break_self_close_br(s@.skip(i as int)));
            }
        }
    }
    proof {
        assert(s@.skip(n as int) =~= Seq::<char>::empty());
        assert(out@ + Seq::<char>::empty() =~= out@);
    }
    out
}

/// Whether no newline stands in `s[a..b]`.
fn no_newline_in(s: &[char], a: usize, b: usize) -> (r: bool)
    requires
        a <= b <= s@.len(),
    ensures
        r == no_newline_range(s@, a as int, b as int),
{
    let mut m: usize = a;
    while m < b
        invariant
            a <= m <= b <= s@.len(),
            forall|q: int| a <= q < m ==> s@[q] != '\n',
        decreases b - m,
    {
        if s[m] == '\n' {
            return false;
        }
        m += 1;
    }
    true
}

/// Replace every remaining tag by one space.
fn strip_tags_pass(s: &[char]) -> (r: Vec<char>)
    ensures
        r@ == strip_tags(s@),
{
    let n = s.len();
    let gt = chars_of(">");
    proof {
        reveal_strlit(">");
        assert(s@.skip(0) =~= s@);
        assert(Seq::<char>::empty() + strip_tags(s@) =~= strip_tags(s@));
    }
    let mut out: Vec<char> = Vec::new();
    let mut i: usize = 0;
    while i < n
        invariant
            n == s@.len(),
            gt@ == ">"@,
            ">"@.len() == 1,
            i <= n,
            strip_tags(s@) == out@ + strip_tags(s@.skip(i as int)),
        decreases n - i,
    {
        let ghost pre = out@;
        let ghost rest = s@.skip(i as int);
        assert(rest.len() == n - i);
        assert(rest[0] == s@[i as int]);
        let mut matched = false;
        let mut j: usize = 0;
        if s[i] == '<' && n - i >= 2 {
            let after = subrange_vec(s, i + 2, n);
            proof {
                assert(after@ =~= rest.skip(2));
            }
            match find_first_sub(after.as_slice(), gt.as_slice()) {
                Some(j0) => {
                    proof {
                        lemma_find_first_bounds(rest.skip(2), ">"@);
                    }
                    let ok = no_newline_in(s, i + 1, i + 2 + j0);
                    proof {
                        if ok {
                            assert forall|q: int| 1 <= q < j0 + 2 implies rest[q] != '\n' by {
                                assert(rest[q] == s@[i + q]);
                            }
                            assert(no_newline_range(rest, 1, j0 + 2));
                            assert(tag_at_front(rest));
                        } else {
                            assert(!no_newline_range(rest, 1, j0 + 2)) by {
                                if no_newline_range(rest, 1, j0 + 2) {
                                    assert forall|q: int| i + 1 <= q < i + 2 + j0 implies s@[q]
                                        != '\n' by {
                                        assert(rest[q - i] == s@[q]);
                                        assert(rest[q - i] != '\n');
                                    }
                                }
                            }
                            assert(!tag_at_front(rest));
                        }
                    }
                    if ok {
                        matched = true;
                        j = j0;
                    }
                },
                None => {
                    proof {
                        assert(!tag_at_front(rest));
                    }
                },
            }
        } else {
            proof {
                assert(!tag_at_front(rest));
            }
        }
        if matched {
            proof {
                assert(strip_tags(rest) == seq![' '] + strip_tags(rest.skip(j + 3)));
            }
            out.push(' ');
            i = i + 3 + j;
            proof {
                assert(rest.skip(j + 3) =~= s@.skip(i as int));
                assert(out@ =~= pre + seq![' ']);
                assert(pre + (seq![' '] + strip_tags(s@.skip(i as int))) =~= out@
                    + strip_tags(s@.skip(i as int)));
            }
        } else {
            proof {
                assert(strip_tags(rest) == seq![rest[0]] + strip_tags(rest.skip(1)));
            }
            out.push(s[i]);
            i += 1;
            proof {
                assert(rest.skip(1) =~= s@.skip(i as int));
                assert(out@ =~= pre + seq![rest[0]]);
                assert(pre + (seq![rest[0]] + strip_tags(s@.skip(i as int))) =~= out@
                    + strip_tags(s@.skip(i as int)));
            }
        }
    }
    proof {
        assert(s@.skip(n as int) =~= Seq::<char>::empty());
        assert(out@ + Seq::<char>::empty() =~= out@);
    }
    out
}

/// Flatten raw HTML to whitespace-normalized plain text.
pub fn html2text(html: &str) -> (r: String)
    ensures
        r@ == spec_html2text(html@),
{
    proof {
        reveal_strlit("\n");
        reveal_strlit(" ");
        reveal_strlit(" \n");
        reveal_strlit("\n ");
    }
    let v = chars_of(html);
    let nl = chars_of("\n");
    let sp = chars_of(" ");
    let flat = replace_sub(v.as_slice(), nl.as_slice(), sp.as_slice());
    let opened = cut_body_open(flat.as_slice());
    let body = cut_body_close(opened.as_slice());
    let no_comments = strip_comments_pass(body.as_slice());
    let broken = break_close_tags_pass(no_comments.as_slice());
    let with_breaks = break_self_close_br_pass(broken.as_slice());
    let no_tags = strip_tags_pass(with_breaks.as_slice());
    let mut ws_set: Vec<char> = Vec::new();
    ws_set.push('\r');
    ws_set.push('\t');
    ws_set.push(' ');
    proof {
        assert(ws_set@ =~= seq!['\r', '\t', ' ']);
    }
    let one_space = collapse_runs(no_tags.as_slice(), ws_set.as_slice(), ' ');
    let sp_nl = chars_of(" \n");
    let nl_sp = chars_of("\n ");
    let t1 = replace_sub(one_space.as_slice(), sp_nl.as_slice(), nl.as_slice());
    let tight = replace_sub(t1.as_slice(), nl_sp.as_slice(), nl.as_slice());
    let mut nl_set: Vec<char> = Vec::new();
    nl_set.push('\n');
    proof {
        assert(nl_set@ =~= seq!['\n']);
    }
    let c1 = collapse_runs(tight.as_slice(), nl_set.as_slice(), '\n');
    let mut sp_set: Vec<char> = Vec::new();
    sp_set.push(' ');
    proof {
        assert(sp_set@ =~= seq![' ']);
    }
    let c2 = collapse_runs(c1.as_slice(), sp_set.as_slice(), ' ');
    string_of(c2.as_slice())
}

} // verus!
