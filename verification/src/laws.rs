//! Laws of the merger.
//!
//! The merge step is idempotent, every merge key appears at most once in
//! its output, and the window set kept for one key is exactly the union of
//! the window sets the input records with that key carried.

use vstd::prelude::*;

use crate::candidates::{
    cand_le, key4, key5, lemma_cand_connected, lemma_cand_trans, lemma_tp_connected,
    lemma_tp_trans, tp_le, ConciseUrlCandidateV, TextPartV,
};
use crate::merge::{
    dedup_tps, insert_sorted, insert_tp, merge_runs, merge_step, normalize_texts, sort_cands,
    sort_tps, sorted_cands, sorted_tps, spec_merge,
};

verus! {

/// No two adjacent records share the merge key.
pub open spec fn adj_distinct(s: Seq<ConciseUrlCandidateV>) -> bool {
    forall|i: int| 0 <= i < s.len() - 1 ==> key4(#[trigger] s[i]) != key4(s[i + 1])
}

/// No two records anywhere share the merge key.
pub open spec fn distinct_keys(s: Seq<ConciseUrlCandidateV>) -> bool {
    forall|i: int, j: int| 0 <= i < j < s.len() ==> key4(#[trigger] s[i]) != key4(
        #[trigger] s[j],
    )
}

/// Whether some record of `s` carries the merge key `k`.
pub open spec fn key_present(
    s: Seq<ConciseUrlCandidateV>,
    k: (Seq<char>, Seq<char>, Option<Seq<char>>, Option<Seq<char>>),
) -> bool {
    exists|i: int| 0 <= i < s.len() && key4(#[trigger] s[i]) == k
}

/// The windows one record contributes to key `k`.
pub open spec fn window_share(
    c: ConciseUrlCandidateV,
    k: (Seq<char>, Seq<char>, Option<Seq<char>>, Option<Seq<char>>),
) -> Set<TextPartV> {
    if key4(c) == k {
        c.texts.to_set()
    } else {
        Set::<TextPartV>::empty()
    }
}

/// All windows that records with merge key `k` carry.
pub open spec fn windows_of_key(
    s: Seq<ConciseUrlCandidateV>,
    k: (Seq<char>, Seq<char>, Option<Seq<char>>, Option<Seq<char>>),
) -> Set<TextPartV>
    decreases s.len(),
{
    if s.len() == 0 {
        Set::<TextPartV>::empty()
    } else {
        windows_of_key(s.drop_last(), k).union(window_share(s.last(), k))
    }
}

proof fn lemma_insert_len(x: ConciseUrlCandidateV, s: Seq<ConciseUrlCandidateV>)
    ensures
        insert_sorted(x, s).len() == s.len() + 1,
    decreases s.len(),
{
    if s.len() > 0 && !cand_le(s.last(), x) {
        lemma_insert_len(x, s.drop_last());
    }
}

proof fn lemma_insert_upper(
    x: ConciseUrlCandidateV,
    s: Seq<ConciseUrlCandidateV>,
    b: ConciseUrlCandidateV,
)
    requires
        cand_le(x, b),
        forall|k: int| 0 <= k < s.len() ==> cand_le(#[trigger] s[k], b),
    ensures
        forall|i: int| 0 <= i < insert_sorted(x, s).len() ==> cand_le(
            #[trigger] insert_sorted(x, s)[i],
            b,
        ),
    decreases s.len(),
{
    lemma_insert_len(x, s);
    if s.len() == 0 {
    } else if cand_le(s.last(), x) {
        assert forall|i: int| 0 <= i < s.push(x).len() implies cand_le(
            #[trigger] s.push(x)[i],
            b,
        ) by {
            if i < s.len() {
                assert(s.push(x)[i] == s[i]);
            }
        }
    } else {
        let bl = s.drop_last();
        assert forall|k: int| 0 <= k < bl.len() implies cand_le(#[trigger] bl[k], b) by {
            assert(bl[k] == s[k]);
        }
        lemma_insert_upper(x, bl, b);
        lemma_insert_len(x, bl);
        let t = insert_sorted(x, bl);
        assert forall|i: int| 0 <= i < t.push(s.last()).len() implies cand_le(
            #[trigger] t.push(s.last())[i],
            b,
        ) by {
            if i < t.len() {
                assert(t.push(s.last())[i] == t[i]);
            } else {
                assert(t.push(s.last())[i] == s.last());
            }
        }
    }
}

proof fn lemma_insert_preserves_sorted(x: ConciseUrlCandidateV, s: Seq<ConciseUrlCandidateV>)
    requires
        sorted_cands(s),
    ensures
        sorted_cands(insert_sorted(x, s)),
    decreases s.len(),
{
    lemma_insert_len(x, s);
    if s.len() == 0 {
    } else if cand_le(s.last(), x) {
        let t = s.push(x);
        assert forall|i: int, j: int| 0 <= i < j < t.len() implies cand_le(
            #[trigger] t[i],
            #[trigger] t[j],
        ) by {
            if j < s.len() {
            } else {
                if i < s.len() - 1 {
                    lemma_cand_trans(s[i], s.last(), x);
                }
            }
        }
    } else {
        let bl = s.drop_last();
        assert(sorted_cands(bl)) by {
            assert forall|i: int, j: int| 0 <= i < j < bl.len() implies cand_le(
                #[trigger] bl[i],
                #[trigger] bl[j],
            ) by {
                assert(bl[i] == s[i] && bl[j] == s[j]);
            }
        }
        lemma_insert_preserves_sorted(x, bl);
        lemma_insert_len(x, bl);
        lemma_cand_connected(s.last(), x);
        assert forall|k: int| 0 <= k < bl.len() implies cand_le(#[trigger] bl[k], s.last())
            by {
            assert(bl[k] == s[k]);
        }
        lemma_insert_upper(x, bl, s.last());
        let t = insert_sorted(x, bl);
        let t2 = t.push(s.last());
        assert forall|i: int, j: int| 0 <= i < j < t2.len() implies cand_le(
            #[trigger] t2[i],
            #[trigger] t2[j],
        ) by {
            if j < t.len() {
                assert(t2[i] == t[i] && t2[j] == t[j]);
            } else {
                assert(t2[j] == s.last());
                assert(t2[i] == t[i]);
                assert(cand_le(t[i], s.last()));
            }
        }
    }
}

/// Sorting sorts, and keeps the length.
pub proof fn lemma_sort_sorted(s: Seq<ConciseUrlCandidateV>)
    ensures
        sorted_cands(sort_cands(s)),
        sort_cands(s).len() == s.len(),
    decreases s.len(),
{
    if s.len() > 0 {
        lemma_sort_sorted(s.drop_last());
        lemma_insert_preserves_sorted(s.last(), sort_cands(s.drop_last()));
        lemma_insert_len(s.last(), sort_cands(s.drop_last()));
    }
}

/// Sorting an already sorted sequence changes nothing.
pub proof fn lemma_sort_of_sorted(s: Seq<ConciseUrlCandidateV>)
    requires
        sorted_cands(s),
    ensures
        sort_cands(s) == s,
    decreases s.len(),
{
    if s.len() > 0 {
        let bl = s.drop_last();
        assert(sorted_cands(bl)) by {
            assert forall|i: int, j: int| 0 <= i < j < bl.len() implies cand_le(
                #[trigger] bl[i],
                #[trigger] bl[j],
            ) by {
                assert(bl[i] == s[i] && bl[j] == s[j]);
            }
        }
        lemma_sort_of_sorted(bl);
        if bl.len() == 0 {
            assert(insert_sorted(s.last(), bl) =~= s);
        } else {
            assert(bl.last() == s[s.len() - 2]);
            assert(cand_le(bl.last(), s.last()));
            assert(insert_sorted(s.last(), bl) == bl.push(s.last()));
            assert(bl.push(s.last()) =~= s);
        }
    }
}

/// What the run merge does to a sorted sequence: the output is sorted, its
/// adjacent merge keys differ, and its last record closes the last run.
pub proof fn lemma_merge_runs_props(s: Seq<ConciseUrlCandidateV>)
    requires
        sorted_cands(s),
        s.len() > 0,
    ensures
        merge_runs(s).len() > 0,
        sorted_cands(merge_runs(s)),
        adj_distinct(merge_runs(s)),
        cand_le(merge_runs(s).last(), s.last()),
        key4(merge_runs(s).last()) == key4(s.last()),
    decreases s.len(),
{
    let bl = s.drop_last();
    if bl.len() == 0 {
        assert(merge_runs(bl).len() == 0);
        assert(merge_runs(s) == merge_step(merge_runs(bl), s.last()));
        assert(merge_runs(s) =~= seq![s.last()]);
        lemma_cand_connected(s.last(), s.last());
    } else {
        assert(sorted_cands(bl)) by {
            assert forall|i: int, j: int| 0 <= i < j < bl.len() implies cand_le(
                #[trigger] bl[i],
                #[trigger] bl[j],
            ) by {
                assert(bl[i] == s[i] && bl[j] == s[j]);
            }
        }
        lemma_merge_runs_props(bl);
        let m = merge_runs(bl);
        let x = s.last();
        assert(cand_le(bl.last(), x));
        if key4(m.last()) == key4(x) {
            let updated = ConciseUrlCandidateV { texts: m.last().texts + x.texts, ..m.last() };
            let m2 = m.update(m.len() - 1, updated);
            assert(merge_runs(s) == m2);
            assert(key5(updated) == key5(m.last()));
            assert(m2.len() == m.len());
            assert(m2.last() == updated);
            assert forall|i: int, j: int| 0 <= i < j < m2.len() implies cand_le(
                #[trigger] m2[i],
                #[trigger] m2[j],
            ) by {
                assert(cand_le(m[i], m[j]));
                if j == m.len() - 1 {
                    assert(m2[i] == m[i]);
                    assert(cand_le(m[i], m.last()) ==> cand_le(m[i], updated));
                } else {
                    assert(m2[i] == m[i] && m2[j] == m[j]);
                }
            }
            assert(adj_distinct(m2)) by {
                assert forall|i: int| 0 <= i < m2.len() - 1 implies key4(#[trigger] m2[i])
                    != key4(m2[i + 1]) by {
                    assert(key4(m2[i]) == key4(m[i]));
                    assert(key4(m2[i + 1]) == key4(m[i + 1]));
                }
            }
            assert(cand_le(m.last(), bl.last()));
            lemma_cand_trans(m.last(), bl.last(), x);
            assert(cand_le(updated, x));
        } else {
            let m2 = m.push(x);
            assert(merge_runs(s) == m2);
            assert forall|i: int, j: int| 0 <= i < j < m2.len() implies cand_le(
                #[trigger] m2[i],
                #[trigger] m2[j],
            ) by {
                if j < m.len() {
                    assert(m2[i] == m[i] && m2[j] == m[j]);
                } else {
                    assert(m2[j] == x);
                    assert(m2[i] == m[i]);
                    if i < m.len() - 1 {
                        assert(cand_le(m[i], m.last()));
                    }
                    lemma_cand_trans(m[i], m.last(), bl.last());
                    lemma_cand_trans(m[i], bl.last(), x);
                }
            }
            assert(adj_distinct(m2)) by {
                assert forall|i: int| 0 <= i < m2.len() - 1 implies key4(#[trigger] m2[i])
                    != key4(m2[i + 1]) by {
                    if i < m.len() - 1 {
                        assert(m2[i] == m[i] && m2[i + 1] == m[i + 1]);
                    } else {
                        assert(m2[i] == m.last() && m2[i + 1] == x);
                    }
                }
            }
            lemma_cand_connected(x, x);
        }
    }
}

/// A sorted record between two records with one merge key carries that key.
proof fn lemma_key4_sandwich(
    a: ConciseUrlCandidateV,
    b: ConciseUrlCandidateV,
    c: ConciseUrlCandidateV,
)
    requires
        cand_le(a, b),
        cand_le(b, c),
        key4(a) == key4(c),
    ensures
        key4(b) == key4(a),
{
    crate::order::lemma_lex_connected(a.statement_id, b.statement_id);
    crate::order::lemma_lex_connected(b.statement_id, c.statement_id);
    crate::order::lemma_lex_connected(a.url, b.url);
    crate::order::lemma_lex_connected(b.url, c.url);
    crate::order::lemma_opt_lex_connected(a.property, b.property);
    crate::order::lemma_opt_lex_connected(b.property, c.property);
    crate::order::lemma_opt_lex_connected(a.external_id, b.external_id);
    crate::order::lemma_opt_lex_connected(b.external_id, c.external_id);
    if crate::order::lex_lt(a.statement_id, b.statement_id) {
        if crate::order::lex_lt(b.statement_id, c.statement_id) {
            crate::order::lemma_lex_trans(a.statement_id, b.statement_id, c.statement_id);
            crate::order::lemma_lex_connected(a.statement_id, c.statement_id);
        }
    }
    if crate::order::lex_lt(b.statement_id, a.statement_id) {
        crate::order::lemma_lex_connected(a.statement_id, b.statement_id);
    }
    assert(a.statement_id == b.statement_id);
    if crate::order::lex_lt(a.url, b.url) {
        if crate::order::lex_lt(b.url, c.url) {
            crate::order::lemma_lex_trans(a.url, b.url, c.url);
            crate::order::lemma_lex_connected(a.url, c.url);
        }
    }
    assert(a.url == b.url);
    if crate::order::opt_lex_lt(a.property, b.property) {
        if crate::order::opt_lex_lt(b.property, c.property) {
            crate::order::lemma_opt_lex_trans(a.property, b.property, c.property);
            crate::order::lemma_opt_lex_connected(a.property, c.property);
        }
    }
    assert(a.property == b.property);
    if crate::order::opt_lex_lt(a.external_id, b.external_id) {
        if crate::order::opt_lex_lt(b.external_id, c.external_id) {
            crate::order::lemma_opt_lex_trans(a.external_id, b.external_id, c.external_id);
            crate::order::lemma_opt_lex_connected(a.external_id, c.external_id);
        }
    }
    assert(a.external_id == b.external_id);
    assert(key4(a) =~~= key4(b));
}

/// In a sorted sequence, records sharing a merge key stand adjacent; with
/// distinct adjacent keys the keys are globally distinct.
proof fn lemma_global_distinct(s: Seq<ConciseUrlCandidateV>)
    requires
        sorted_cands(s),
        adj_distinct(s),
    ensures
        distinct_keys(s),
{
    assert forall|i: int, j: int| 0 <= i < j < s.len() implies key4(#[trigger] s[i]) != key4(
        #[trigger] s[j],
    ) by {
        if key4(s[i]) == key4(s[j]) {
            assert(cand_le(s[i], s[i + 1]));
            assert(cand_le(s[i + 1], s[j]) || i + 1 == j);
            if i + 1 < j {
                lemma_key4_sandwich(s[i], s[i + 1], s[j]);
            }
        }
    }
}

/// Merging a sequence whose adjacent keys differ changes nothing.
proof fn lemma_merge_runs_of_distinct(s: Seq<ConciseUrlCandidateV>)
    requires
        adj_distinct(s),
    ensures
        merge_runs(s) == s,
    decreases s.len(),
{
    if s.len() > 0 {
        let bl = s.drop_last();
        assert(adj_distinct(bl)) by {
            assert forall|i: int| 0 <= i < bl.len() - 1 implies key4(#[trigger] bl[i])
                != key4(bl[i + 1]) by {
                assert(bl[i] == s[i] && bl[i + 1] == s[i + 1]);
            }
        }
        lemma_merge_runs_of_distinct(bl);
        if bl.len() == 0 {
            assert(merge_runs(s) =~= s);
        } else {
            assert(bl.last() == s[s.len() - 2]);
            assert(key4(s[s.len() - 2]) != key4(s[s.len() - 2 + 1]));
            assert(merge_runs(s) == bl.push(s.last()));
            assert(bl.push(s.last()) =~= s);
        }
    }
}

proof fn lemma_insert_tp_len(x: TextPartV, s: Seq<TextPartV>)
    ensures
        insert_tp(x, s).len() == s.len() + 1,
    decreases s.len(),
{
    if s.len() > 0 && !tp_le(s.last(), x) {
        lemma_insert_tp_len(x, s.drop_last());
    }
}

proof fn lemma_insert_tp_upper(x: TextPartV, s: Seq<TextPartV>, b: TextPartV)
    requires
        tp_le(x, b),
        forall|k: int| 0 <= k < s.len() ==> tp_le(#[trigger] s[k], b),
    ensures
        forall|i: int| 0 <= i < insert_tp(x, s).len() ==> tp_le(#[trigger] insert_tp(x, s)[i], b),
    decreases s.len(),
{
    lemma_insert_tp_len(x, s);
    if s.len() == 0 {
    } else if tp_le(s.last(), x) {
        assert forall|i: int| 0 <= i < s.push(x).len() implies tp_le(#[trigger] s.push(x)[i], b)
            by {
            if i < s.len() {
                assert(s.push(x)[i] == s[i]);
            }
        }
    } else {
        let bl = s.drop_last();
        assert forall|k: int| 0 <= k < bl.len() implies tp_le(#[trigger] bl[k], b) by {
            assert(bl[k] == s[k]);
        }
        lemma_insert_tp_upper(x, bl, b);
        lemma_insert_tp_len(x, bl);
        let t = insert_tp(x, bl);
        assert forall|i: int| 0 <= i < t.push(s.last()).len() implies tp_le(
            #[trigger] t.push(s.last())[i],
            b,
        ) by {
            if i < t.len() {
                assert(t.push(s.last())[i] == t[i]);
            } else {
                assert(t.push(s.last())[i] == s.last());
            }
        }
    }
}

proof fn lemma_insert_tp_preserves_sorted(x: TextPartV, s: Seq<TextPartV>)
    requires
        sorted_tps(s),
    ensures
        sorted_tps(insert_tp(x, s)),
    decreases s.len(),
{
    lemma_insert_tp_len(x, s);
    if s.len() == 0 {
    } else if tp_le(s.last(), x) {
        let t = s.push(x);
        assert forall|i: int, j: int| 0 <= i < j < t.len() implies tp_le(
            #[trigger] t[i],
            #[trigger] t[j],
        ) by {
            if j < s.len() {
            } else {
                if i < s.len() - 1 {
                    lemma_tp_trans(s[i], s.last(), x);
                }
            }
        }
    } else {
        let bl = s.drop_last();
        assert(sorted_tps(bl)) by {
            assert forall|i: int, j: int| 0 <= i < j < bl.len() implies tp_le(
                #[trigger] bl[i],
                #[trigger] bl[j],
            ) by {
                assert(bl[i] == s[i] && bl[j] == s[j]);
            }
        }
        lemma_insert_tp_preserves_sorted(x, bl);
        lemma_insert_tp_len(x, bl);
        lemma_tp_connected(s.last(), x);
        assert forall|k: int| 0 <= k < bl.len() implies tp_le(#[trigger] bl[k], s.last()) by {
            assert(bl[k] == s[k]);
        }
        lemma_insert_tp_upper(x, bl, s.last());
        let t = insert_tp(x, bl);
        let t2 = t.push(s.last());
        assert forall|i: int, j: int| 0 <= i < j < t2.len() implies tp_le(
            #[trigger] t2[i],
            #[trigger] t2[j],
        ) by {
            if j < t.len() {
                assert(t2[i] == t[i] && t2[j] == t[j]);
            } else {
                assert(t2[j] == s.last());
                assert(t2[i] == t[i]);
                assert(tp_le(t[i], s.last()));
            }
        }
    }
}

/// Sorting a window list sorts it.
pub proof fn lemma_sort_tps_sorted(s: Seq<TextPartV>)
    ensures
        sorted_tps(sort_tps(s)),
        sort_tps(s).len() == s.len(),
    decreases s.len(),
{
    if s.len() > 0 {
        lemma_sort_tps_sorted(s.drop_last());
        lemma_insert_tp_preserves_sorted(s.last(), sort_tps(s.drop_last()));
        lemma_insert_tp_len(s.last(), sort_tps(s.drop_last()));
    }
}

/// Sorting an already sorted window list changes nothing.
proof fn lemma_sort_tps_of_sorted(s: Seq<TextPartV>)
    requires
        sorted_tps(s),
    ensures
        sort_tps(s) == s,
    decreases s.len(),
{
    if s.len() > 0 {
        let bl = s.drop_last();
        assert(sorted_tps(bl)) by {
            assert forall|i: int, j: int| 0 <= i < j < bl.len() implies tp_le(
                #[trigger] bl[i],
                #[trigger] bl[j],
            ) by {
                assert(bl[i] == s[i] && bl[j] == s[j]);
            }
        }
        lemma_sort_tps_of_sorted(bl);
        if bl.len() == 0 {
            assert(insert_tp(s.last(), bl) =~= s);
        } else {
            assert(bl.last() == s[s.len() - 2]);
            assert(tp_le(bl.last(), s.last()));
            assert(insert_tp(s.last(), bl) == bl.push(s.last()));
            assert(bl.push(s.last()) =~= s);
        }
    }
}

/// No two adjacent windows are equal.
pub open spec fn adj_distinct_tps(s: Seq<TextPartV>) -> bool {
    forall|i: int| 0 <= i < s.len() - 1 ==> #[trigger] s[i] != s[i + 1]
}

/// Deduplicating a sorted window list keeps it sorted, makes its adjacent
/// windows distinct, and keeps the last window.
proof fn lemma_dedup_props(s: Seq<TextPartV>)
    requires
        sorted_tps(s),
    ensures
        sorted_tps(dedup_tps(s)),
        adj_distinct_tps(dedup_tps(s)),
        s.len() > 0 ==> dedup_tps(s).len() > 0 && dedup_tps(s).last() == s.last(),
        forall|i: int| 0 <= i < dedup_tps(s).len() ==> s.len() > 0 && tp_le(
            #[trigger] dedup_tps(s)[i],
            s.last(),
        ),
    decreases s.len(),
{
    if s.len() > 0 {
        let bl = s.drop_last();
        assert(sorted_tps(bl)) by {
            assert forall|i: int, j: int| 0 <= i < j < bl.len() implies tp_le(
                #[trigger] bl[i],
                #[trigger] bl[j],
            ) by {
                assert(bl[i] == s[i] && bl[j] == s[j]);
            }
        }
        lemma_dedup_props(bl);
        let d = dedup_tps(bl);
        let x = s.last();
        lemma_tp_connected(x, x);
        if bl.len() == 0 {
            assert(dedup_tps(s) =~= seq![x]);
        } else {
            assert(bl.last() == s[s.len() - 2]);
            assert(tp_le(bl.last(), x));
            if d.last() == x {
                assert(dedup_tps(s) == d);
                assert forall|i: int| 0 <= i < d.len() implies tp_le(#[trigger] d[i], x) by {
                    assert(tp_le(d[i], bl.last()));
                    lemma_tp_trans(d[i], bl.last(), x);
                }
            } else {
                let d2 = d.push(x);
                assert(dedup_tps(s) == d2);
                assert forall|i: int| 0 <= i < d2.len() implies tp_le(#[trigger] d2[i], x) by {
                    if i < d.len() {
                        assert(d2[i] == d[i]);
                        assert(tp_le(d[i], bl.last()));
                        lemma_tp_trans(d[i], bl.last(), x);
                    } else {
                        assert(d2[i] == x);
                    }
                }
                assert forall|i: int, j: int| 0 <= i < j < d2.len() implies tp_le(
                    #[trigger] d2[i],
                    #[trigger] d2[j],
                ) by {
                    if j < d.len() {
                        assert(d2[i] == d[i] && d2[j] == d[j]);
                    } else {
                        assert(d2[i] == d[i] && d2[j] == x);
                        assert(tp_le(d[i], x));
                    }
                }
                assert(adj_distinct_tps(d2)) by {
                    assert forall|i: int| 0 <= i < d2.len() - 1 implies #[trigger] d2[i]
                        != d2[i + 1] by {
                        if i < d.len() - 1 {
                            assert(d2[i] == d[i] && d2[i + 1] == d[i + 1]);
                        } else {
                            assert(d2[i] == d.last() && d2[i + 1] == x);
                        }
                    }
                }
            }
        }
    }
}

/// Deduplicating a window list with distinct neighbours changes nothing.
proof fn lemma_dedup_of_distinct(s: Seq<TextPartV>)
    requires
        adj_distinct_tps(s),
    ensures
        dedup_tps(s) == s,
    decreases s.len(),
{
    if s.len() > 0 {
        let bl = s.drop_last();
        assert(adj_distinct_tps(bl)) by {
            assert forall|i: int| 0 <= i < bl.len() - 1 implies #[trigger] bl[i] != bl[i + 1]
                by {
                assert(bl[i] == s[i] && bl[i + 1] == s[i + 1]);
            }
        }
        lemma_dedup_of_distinct(bl);
        if bl.len() == 0 {
            assert(dedup_tps(s) =~= s);
        } else {
            assert(bl.last() == s[s.len() - 2]);
            assert(s[s.len() - 2] != s[s.len() - 2 + 1]);
            assert(dedup_tps(s) == bl.push(s.last()));
            assert(bl.push(s.last()) =~= s);
        }
    }
}

/// Normalizing a record twice equals normalizing it once.
proof fn lemma_normalize_idem(c: ConciseUrlCandidateV)
    ensures
        normalize_texts(normalize_texts(c)) == normalize_texts(c),
{
    let t = sort_tps(c.texts);
    lemma_sort_tps_sorted(c.texts);
    lemma_dedup_props(t);
    let t1 = dedup_tps(t);
    lemma_sort_tps_of_sorted(t1);
    lemma_dedup_of_distinct(t1);
    assert(normalize_texts(normalize_texts(c)) =~~= normalize_texts(c));
}

/// The merger's output, fed to the merger again, comes back unchanged.
///
/// This is the idempotence law: re-merging the merge's own output performs
/// no further collapsing and no reordering.
pub proof fn lemma_merge_idempotent(s: Seq<ConciseUrlCandidateV>)
    ensures
        spec_merge(spec_merge(s)) == spec_merge(s),
{
    let so = sort_cands(s);
    lemma_sort_sorted(s);
    if s.len() == 0 {
        assert(spec_merge(s) =~= Seq::<ConciseUrlCandidateV>::empty());
        assert(sort_cands(spec_merge(s)) =~= Seq::<ConciseUrlCandidateV>::empty());
        assert(spec_merge(spec_merge(s)) =~= spec_merge(s));
    } else {
        lemma_merge_runs_props(so);
        let mr = merge_runs(so);
        let m = mr.map_values(|c: ConciseUrlCandidateV| normalize_texts(c));
        assert(m == spec_merge(s));
        assert(m.len() == mr.len());
        assert forall|i: int| 0 <= i < m.len() implies #[trigger] m[i] == normalize_texts(
            mr[i],
        ) by {}
        assert(sorted_cands(m)) by {
            assert forall|i: int, j: int| 0 <= i < j < m.len() implies cand_le(
                #[trigger] m[i],
                #[trigger] m[j],
            ) by {
                assert(cand_le(mr[i], mr[j]));
                assert(key5(m[i]) == key5(mr[i]) && key5(m[j]) == key5(mr[j]));
            }
        }
        assert(adj_distinct(m)) by {
            assert forall|i: int| 0 <= i < m.len() - 1 implies key4(#[trigger] m[i]) != key4(
                m[i + 1],
            ) by {
                assert(key4(m[i]) == key4(mr[i]) && key4(m[i + 1]) == key4(mr[i + 1]));
            }
        }
        lemma_sort_of_sorted(m);
        lemma_merge_runs_of_distinct(m);
        assert(spec_merge(m) == m.map_values(|c: ConciseUrlCandidateV| normalize_texts(c)));
        let mm = m.map_values(|c: ConciseUrlCandidateV| normalize_texts(c));
        assert forall|i: int| 0 <= i < m.len() implies #[trigger] mm[i] == m[i] by {
            lemma_normalize_idem(mr[i]);
        }
        assert(mm =~= m);
    }
}

/// Every merge key appears at most once in the merger's output.
pub proof fn lemma_merge_keys_unique(s: Seq<ConciseUrlCandidateV>)
    ensures
        distinct_keys(spec_merge(s)),
{
    let so = sort_cands(s);
    lemma_sort_sorted(s);
    if s.len() == 0 {
        assert(spec_merge(s) =~= Seq::<ConciseUrlCandidateV>::empty());
    } else {
        lemma_merge_runs_props(so);
        let mr = merge_runs(so);
        let m = mr.map_values(|c: ConciseUrlCandidateV| normalize_texts(c));
        assert(sorted_cands(m)) by {
            assert forall|i: int, j: int| 0 <= i < j < m.len() implies cand_le(
                #[trigger] m[i],
                #[trigger] m[j],
            ) by {
                assert(cand_le(mr[i], mr[j]));
                assert(key5(m[i]) == key5(mr[i]) && key5(m[j]) == key5(mr[j]));
            }
        }
        assert(adj_distinct(m)) by {
            assert forall|i: int| 0 <= i < m.len() - 1 implies key4(#[trigger] m[i]) != key4(
                m[i + 1],
            ) by {
                assert(key4(m[i]) == key4(mr[i]) && key4(m[i + 1]) == key4(mr[i + 1]));
            }
        }
        lemma_global_distinct(m);
        assert(distinct_keys(spec_merge(s)));
    }
}

proof fn lemma_to_set_push(s: Seq<TextPartV>, x: TextPartV)
    ensures
        s.push(x).to_set() == s.to_set().insert(x),
{
    assert forall|y: TextPartV| s.push(x).to_set().contains(y) implies s.to_set().insert(
        x,
    ).contains(y) by {
        let i = choose|i: int| 0 <= i < s.push(x).len() && s.push(x)[i] == y;
        if i < s.len() {
            assert(s[i] == y);
            assert(s.contains(y));
        }
    }
    assert forall|y: TextPartV| s.to_set().insert(x).contains(y) implies s.push(
        x,
    ).to_set().contains(y) by {
        if y == x {
            assert(s.push(x)[s.len() as int] == y);
        } else {
            let i = choose|i: int| 0 <= i < s.len() && s[i] == y;
            assert(s.push(x)[i] == y);
        }
    }
    assert(s.push(x).to_set() =~= s.to_set().insert(x));
}

proof fn lemma_to_set_concat(a: Seq<TextPartV>, b: Seq<TextPartV>)
    ensures
        (a + b).to_set() == a.to_set().union(b.to_set()),
{
    assert forall|y: TextPartV| (a + b).to_set().contains(y) implies a.to_set().union(
        b.to_set(),
    ).contains(y) by {
        let i = choose|i: int| 0 <= i < (a + b).len() && (a + b)[i] == y;
        if i < a.len() {
            assert(a[i] == y);
            assert(a.contains(y));
        } else {
            assert(b[i - a.len()] == y);
            assert(b.contains(y));
        }
    }
    assert forall|y: TextPartV| a.to_set().union(b.to_set()).contains(y) implies (a
        + b).to_set().contains(y) by {
        if a.contains(y) {
            let i = choose|i: int| 0 <= i < a.len() && a[i] == y;
            assert((a + b)[i] == y);
        } else {
            let i = choose|i: int| 0 <= i < b.len() && b[i] == y;
            assert((a + b)[a.len() + i] == y);
        }
    }
    assert((a + b).to_set() =~= a.to_set().union(b.to_set()));
}

proof fn lemma_insert_tp_to_set(x: TextPartV, s: Seq<TextPartV>)
    ensures
        insert_tp(x, s).to_set() == s.to_set().insert(x),
    decreases s.len(),
{
    if s.len() == 0 {
        assert(insert_tp(x, s) =~= Seq::<TextPartV>::empty().push(x));
        lemma_to_set_push(Seq::<TextPartV>::empty(), x);
        assert(Seq::<TextPartV>::empty().to_set() =~= Set::<TextPartV>::empty());
        assert(s.to_set() =~= Set::<TextPartV>::empty());
    } else if tp_le(s.last(), x) {
        lemma_to_set_push(s, x);
    } else {
        let bl = s.drop_last();
        lemma_insert_tp_to_set(x, bl);
        lemma_to_set_push(insert_tp(x, bl), s.last());
        lemma_to_set_push(bl, s.last());
        assert(bl.push(s.last()) =~= s);
        assert(insert_tp(x, s).to_set() =~= s.to_set().insert(x));
    }
}

proof fn lemma_sort_tps_to_set(s: Seq<TextPartV>)
    ensures
        sort_tps(s).to_set() == s.to_set(),
    decreases s.len(),
{
    if s.len() > 0 {
        let bl = s.drop_last();
        lemma_sort_tps_to_set(bl);
        lemma_insert_tp_to_set(s.last(), sort_tps(bl));
        lemma_to_set_push(bl, s.last());
        assert(bl.push(s.last()) =~= s);
        assert(sort_tps(s).to_set() =~= s.to_set());
    }
}

proof fn lemma_dedup_to_set(s: Seq<TextPartV>)
    ensures
        dedup_tps(s).to_set() == s.to_set(),
    decreases s.len(),
{
    if s.len() > 0 {
        let bl = s.drop_last();
        lemma_dedup_to_set(bl);
        let d = dedup_tps(bl);
        lemma_to_set_push(bl, s.last());
        assert(bl.push(s.last()) =~= s);
        if d.len() > 0 && d.last() == s.last() {
            assert(dedup_tps(s) == d);
            assert(d.contains(d.last()));
            assert(d.to_set().contains(s.last()));
            assert(d.to_set() =~= s.to_set());
        } else {
            assert(dedup_tps(s) == d.push(s.last()));
            lemma_to_set_push(d, s.last());
            assert(dedup_tps(s).to_set() =~= s.to_set());
        }
    }
}

/// Normalizing keeps a record's window set and its keys.
proof fn lemma_normalize_contrib(
    c: ConciseUrlCandidateV,
    k: (Seq<char>, Seq<char>, Option<Seq<char>>, Option<Seq<char>>),
)
    ensures
        window_share(normalize_texts(c), k) == window_share(c, k),
        key4(normalize_texts(c)) == key4(c),
{
    lemma_sort_tps_to_set(c.texts);
    lemma_dedup_to_set(sort_tps(c.texts));
}

proof fn lemma_windows_insert(
    x: ConciseUrlCandidateV,
    s: Seq<ConciseUrlCandidateV>,
    k: (Seq<char>, Seq<char>, Option<Seq<char>>, Option<Seq<char>>),
)
    ensures
        windows_of_key(insert_sorted(x, s), k) == windows_of_key(s, k).union(window_share(x, k)),
    decreases s.len(),
{
    if s.len() == 0 {
        let t = insert_sorted(x, s);
        assert(t =~= Seq::<ConciseUrlCandidateV>::empty().push(x));
        assert(t.drop_last() =~= Seq::<ConciseUrlCandidateV>::empty());
        assert(windows_of_key(t, k) == windows_of_key(t.drop_last(), k).union(window_share(x, k)));
        assert(windows_of_key(t, k) =~= windows_of_key(s, k).union(window_share(x, k)));
    } else if cand_le(s.last(), x) {
        let t = s.push(x);
        assert(t.drop_last() =~= s);
        assert(t.last() == x);
        assert(windows_of_key(t, k) == windows_of_key(s, k).union(window_share(x, k)));
    } else {
        let bl = s.drop_last();
        lemma_insert_tp_len_c(x, bl);
        lemma_windows_insert(x, bl, k);
        let t = insert_sorted(x, bl).push(s.last());
        assert(insert_sorted(x, s) == t);
        assert(t.drop_last() =~= insert_sorted(x, bl));
        assert(t.last() == s.last());
        assert(windows_of_key(t, k) == windows_of_key(bl, k).union(window_share(x, k)).union(
            window_share(s.last(), k),
        ));
        assert(windows_of_key(s, k) == windows_of_key(bl, k).union(window_share(s.last(), k)));
        assert(windows_of_key(bl, k).union(window_share(x, k)).union(window_share(s.last(), k))
            =~= windows_of_key(bl, k).union(window_share(s.last(), k)).union(window_share(x, k)));
    }
}

proof fn lemma_insert_tp_len_c(x: ConciseUrlCandidateV, s: Seq<ConciseUrlCandidateV>)
    ensures
        insert_sorted(x, s).len() == s.len() + 1,
    decreases s.len(),
{
    if s.len() > 0 && !cand_le(s.last(), x) {
        lemma_insert_tp_len_c(x, s.drop_last());
    }
}

proof fn lemma_windows_sort(
    s: Seq<ConciseUrlCandidateV>,
    k: (Seq<char>, Seq<char>, Option<Seq<char>>, Option<Seq<char>>),
)
    ensures
        windows_of_key(sort_cands(s), k) == windows_of_key(s, k),
    decreases s.len(),
{
    if s.len() > 0 {
        let bl = s.drop_last();
        lemma_windows_sort(bl, k);
        lemma_windows_insert(s.last(), sort_cands(bl), k);
        assert(windows_of_key(s, k) == windows_of_key(bl, k).union(window_share(s.last(), k)));
        assert(windows_of_key(sort_cands(s), k) =~= windows_of_key(s, k));
    }
}

proof fn lemma_windows_merge_runs(
    s: Seq<ConciseUrlCandidateV>,
    k: (Seq<char>, Seq<char>, Option<Seq<char>>, Option<Seq<char>>),
)
    ensures
        windows_of_key(merge_runs(s), k) == windows_of_key(s, k),
    decreases s.len(),
{
    if s.len() > 0 {
        let bl = s.drop_last();
        lemma_windows_merge_runs(bl, k);
        let m = merge_runs(bl);
        let x = s.last();
        assert(windows_of_key(s, k) == windows_of_key(bl, k).union(window_share(x, k)));
        if m.len() > 0 && key4(m.last()) == key4(x) {
            let updated = ConciseUrlCandidateV { texts: m.last().texts + x.texts, ..m.last() };
            let m2 = m.update(m.len() - 1, updated);
            assert(merge_runs(s) == m2);
            assert(m2.drop_last() =~= m.drop_last());
            assert(m2.last() == updated);
            assert(windows_of_key(m2, k) == windows_of_key(m.drop_last(), k).union(
                window_share(updated, k),
            ));
            lemma_to_set_concat(m.last().texts, x.texts);
            assert(window_share(updated, k) =~= window_share(m.last(), k).union(window_share(x, k)));
            assert(windows_of_key(m, k) == windows_of_key(m.drop_last(), k).union(
                window_share(m.last(), k),
            ));
            assert(windows_of_key(m2, k) =~= windows_of_key(m, k).union(window_share(x, k)));
            assert(windows_of_key(m2, k) =~= windows_of_key(s, k));
        } else {
            let m2 = m.push(x);
            assert(merge_runs(s) == m2);
            assert(m2.drop_last() =~= m);
            assert(m2.last() == x);
            assert(windows_of_key(m2, k) == windows_of_key(m, k).union(window_share(x, k)));
            assert(windows_of_key(m2, k) =~= windows_of_key(s, k));
        }
    }
}

proof fn lemma_windows_map_norm(
    s: Seq<ConciseUrlCandidateV>,
    k: (Seq<char>, Seq<char>, Option<Seq<char>>, Option<Seq<char>>),
)
    ensures
        windows_of_key(s.map_values(|c: ConciseUrlCandidateV| normalize_texts(c)), k)
            == windows_of_key(s, k),
        key_present(s.map_values(|c: ConciseUrlCandidateV| normalize_texts(c)), k)
            == key_present(s, k),
    decreases s.len(),
{
    let m = s.map_values(|c: ConciseUrlCandidateV| normalize_texts(c));
    if s.len() == 0 {
        assert(m =~= Seq::<ConciseUrlCandidateV>::empty());
        assert(!key_present(m, k) && !key_present(s, k));
    } else {
        let bl = s.drop_last();
        lemma_windows_map_norm(bl, k);
        assert(m.drop_last() =~= bl.map_values(|c: ConciseUrlCandidateV| normalize_texts(c)));
        assert(m.last() == normalize_texts(s.last()));
        lemma_normalize_contrib(s.last(), k);
        assert(windows_of_key(m, k) == windows_of_key(m.drop_last(), k).union(
            window_share(m.last(), k),
        ));
        assert(windows_of_key(m, k) =~= windows_of_key(s, k));
        assert(key_present(m, k) == key_present(s, k)) by {
            if key_present(s, k) {
                let i = choose|i: int| 0 <= i < s.len() && key4(#[trigger] s[i]) == k;
                assert(key4(m[i]) == k);
            }
            if key_present(m, k) {
                let i = choose|i: int| 0 <= i < m.len() && key4(#[trigger] m[i]) == k;
                assert(key4(s[i]) == k);
            }
        }
    }
}

proof fn lemma_keys_insert(
    x: ConciseUrlCandidateV,
    s: Seq<ConciseUrlCandidateV>,
    k: (Seq<char>, Seq<char>, Option<Seq<char>>, Option<Seq<char>>),
)
    ensures
        key_present(insert_sorted(x, s), k) == (key_present(s, k) || key4(x) == k),
    decreases s.len(),
{
    lemma_insert_tp_len_c(x, s);
    if s.len() == 0 {
        let t = insert_sorted(x, s);
        assert(t =~= Seq::<ConciseUrlCandidateV>::empty().push(x));
        assert(t[0] == x);
        if key4(x) == k {
            assert(key_present(t, k));
        }
        if key_present(t, k) {
            let i = choose|i: int| 0 <= i < t.len() && key4(#[trigger] t[i]) == k;
            assert(t[i] == x);
        }
        assert(!key_present(s, k));
    } else if cand_le(s.last(), x) {
        let t = s.push(x);
        if key_present(s, k) {
            let i = choose|i: int| 0 <= i < s.len() && key4(#[trigger] s[i]) == k;
            assert(key4(t[i]) == k);
        }
        if key4(x) == k {
            assert(key4(t[s.len() as int]) == k);
        }
        if key_present(t, k) {
            let i = choose|i: int| 0 <= i < t.len() && key4(#[trigger] t[i]) == k;
            if i < s.len() {
                assert(key4(s[i]) == k);
            } else {
                assert(t[i] == x);
            }
        }
    } else {
        let bl = s.drop_last();
        lemma_keys_insert(x, bl, k);
        lemma_insert_tp_len_c(x, bl);
        let ti = insert_sorted(x, bl);
        let t = ti.push(s.last());
        assert(insert_sorted(x, s) == t);
        if key_present(ti, k) || key4(s.last()) == k {
            if key_present(ti, k) {
                let i = choose|i: int| 0 <= i < ti.len() && key4(#[trigger] ti[i]) == k;
                assert(key4(t[i]) == k);
            } else {
                assert(key4(t[ti.len() as int]) == k);
            }
            assert(key_present(t, k));
        }
        if key_present(t, k) {
            let i = choose|i: int| 0 <= i < t.len() && key4(#[trigger] t[i]) == k;
            if i < ti.len() {
                assert(key_present(ti, k));
            } else {
                assert(t[i] == s.last());
            }
        }
        if key_present(bl, k) {
            let i = choose|i: int| 0 <= i < bl.len() && key4(#[trigger] bl[i]) == k;
            assert(key4(s[i]) == k);
        }
        if key_present(s, k) {
            let i = choose|i: int| 0 <= i < s.len() && key4(#[trigger] s[i]) == k;
            if i < bl.len() {
                assert(key4(bl[i]) == k);
            }
        }
    }
}

proof fn lemma_keys_sort(
    s: Seq<ConciseUrlCandidateV>,
    k: (Seq<char>, Seq<char>, Option<Seq<char>>, Option<Seq<char>>),
)
    ensures
        key_present(sort_cands(s), k) == key_present(s, k),
    decreases s.len(),
{
    if s.len() == 0 {
    } else {
        let bl = s.drop_last();
        lemma_keys_sort(bl, k);
        lemma_keys_insert(s.last(), sort_cands(bl), k);
        if key_present(bl, k) {
            let i = choose|i: int| 0 <= i < bl.len() && key4(#[trigger] bl[i]) == k;
            assert(key4(s[i]) == k);
        }
        if key_present(s, k) {
            let i = choose|i: int| 0 <= i < s.len() && key4(#[trigger] s[i]) == k;
            if i < bl.len() {
                assert(key4(bl[i]) == k);
            }
        }
    }
}

proof fn lemma_keys_merge_runs(
    s: Seq<ConciseUrlCandidateV>,
    k: (Seq<char>, Seq<char>, Option<Seq<char>>, Option<Seq<char>>),
)
    ensures
        key_present(merge_runs(s), k) == key_present(s, k),
    decreases s.len(),
{
    if s.len() == 0 {
    } else {
        let bl = s.drop_last();
        lemma_keys_merge_runs(bl, k);
        let m = merge_runs(bl);
        let x = s.last();
        if key_present(bl, k) {
            let i = choose|i: int| 0 <= i < bl.len() && key4(#[trigger] bl[i]) == k;
            assert(key4(s[i]) == k);
        }
        if key_present(s, k) && key4(x) != k {
            let i = choose|i: int| 0 <= i < s.len() && key4(#[trigger] s[i]) == k;
            assert(i < bl.len());
            assert(key4(bl[i]) == k);
        }
        if m.len() > 0 && key4(m.last()) == key4(x) {
            let updated = ConciseUrlCandidateV { texts: m.last().texts + x.texts, ..m.last() };
            let m2 = m.update(m.len() - 1, updated);
            assert(merge_runs(s) == m2);
            if key_present(m, k) {
                let i = choose|i: int| 0 <= i < m.len() && key4(#[trigger] m[i]) == k;
                if i == m.len() - 1 {
                    assert(key4(m2[i]) == key4(updated));
                    assert(key4(m2[i]) == k);
                } else {
                    assert(key4(m2[i]) == k);
                }
                assert(key_present(m2, k));
            }
            if key4(x) == k {
                assert(key4(m2[m.len() - 1]) == k);
                assert(key_present(m2, k));
            }
            if key_present(m2, k) {
                let i = choose|i: int| 0 <= i < m2.len() && key4(#[trigger] m2[i]) == k;
                if i == m.len() - 1 {
                    assert(key4(m[i]) == key4(updated));
                    assert(key_present(m, k));
                } else {
                    assert(key4(m[i]) == k);
                    assert(key_present(m, k));
                }
            }
        } else {
            let m2 = m.push(x);
            assert(merge_runs(s) == m2);
            if key_present(m, k) {
                let i = choose|i: int| 0 <= i < m.len() && key4(#[trigger] m[i]) == k;
                assert(key4(m2[i]) == k);
            }
            if key4(x) == k {
                assert(key4(m2[m.len() as int]) == k);
            }
            if key_present(m2, k) {
                let i = choose|i: int| 0 <= i < m2.len() && key4(#[trigger] m2[i]) == k;
                if i < m.len() {
                    assert(key4(m[i]) == k);
                } else {
                    assert(m2[i] == x);
                }
            }
        }
    }
}

/// The union law: the merger keeps a merge key exactly when some input
/// record carried it, and the window set of that key in the output is
/// exactly the union of the window sets the input records with that key
/// carried.
pub proof fn lemma_merge_windows_union(
    s: Seq<ConciseUrlCandidateV>,
    k: (Seq<char>, Seq<char>, Option<Seq<char>>, Option<Seq<char>>),
)
    ensures
        windows_of_key(spec_merge(s), k) == windows_of_key(s, k),
        key_present(spec_merge(s), k) == key_present(s, k),
{
    lemma_windows_sort(s, k);
    lemma_windows_merge_runs(sort_cands(s), k);
    lemma_windows_map_norm(merge_runs(sort_cands(s)), k);
    lemma_keys_sort(s, k);
    lemma_keys_merge_runs(sort_cands(s), k);
}

} // verus!
