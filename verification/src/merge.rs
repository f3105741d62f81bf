//! The merger: sorts all raw match records, combines records that share the
//! merge key (statement id, URL, property, external id), and normalizes each
//! record's window list by sorting and deduplicating it.
//!
//! The result is deterministic and idempotent; the laws stating this are
//! proved in [`crate::laws`].

use vstd::prelude::*;

use crate::candidates::{
    cand_le, cand_le_exec, cand_views, clone_candidate, clone_text_part, key4, key4_eq_exec,
    tp_le, tp_le_exec, tp_eq_exec, tp_views, ConciseUrlCandidate, ConciseUrlCandidateV,
    TextPart, TextPartV,
};

verus! {

/// `x` inserted into `s` from the right: after every element that sorts at
/// or below it. Inserting into a sorted sequence keeps it sorted and is
/// stable.
pub open spec fn insert_sorted(x: ConciseUrlCandidateV, s: Seq<ConciseUrlCandidateV>) -> Seq<
    ConciseUrlCandidateV,
>
    decreases s.len(),
{
    if s.len() == 0 {
        seq![x]
    } else if cand_le(s.last(), x) {
        s.push(x)
    } else {
        insert_sorted(x, s.drop_last()).push(s.last())
    }
}

/// Insertion sort of the records, in input order (stable).
pub open spec fn sort_cands(s: Seq<ConciseUrlCandidateV>) -> Seq<ConciseUrlCandidateV>
    decreases s.len(),
{
    if s.len() == 0 {
        s
    } else {
        insert_sorted(s.last(), sort_cands(s.drop_last()))
    }
}

/// Pairwise sortedness by [`cand_le`].
pub open spec fn sorted_cands(s: Seq<ConciseUrlCandidateV>) -> bool {
    forall|i: int, j: int| 0 <= i < j < s.len() ==> cand_le(#[trigger] s[i], #[trigger] s[j])
}

/// One step of the run merge: a record whose merge key equals the last
/// output record's is folded into it by appending its windows; any other
/// record opens a new output record.
pub open spec fn merge_step(acc: Seq<ConciseUrlCandidateV>, x: ConciseUrlCandidateV) -> Seq<
    ConciseUrlCandidateV,
> {
    if acc.len() > 0 && key4(acc.last()) == key4(x) {
        acc.update(
            acc.len() - 1,
            ConciseUrlCandidateV { texts: acc.last().texts + x.texts, ..acc.last() },
        )
    } else {
        acc.push(x)
    }
}

/// The run merge, processing records left to right.
pub open spec fn merge_runs(s: Seq<ConciseUrlCandidateV>) -> Seq<ConciseUrlCandidateV>
    decreases s.len(),
{
    if s.len() == 0 {
        s
    } else {
        merge_step(merge_runs(s.drop_last()), s.last())
    }
}

/// `x` inserted into a window list from the right.
pub open spec fn insert_tp(x: TextPartV, s: Seq<TextPartV>) -> Seq<TextPartV>
    decreases s.len(),
{
    if s.len() == 0 {
        seq![x]
    } else if tp_le(s.last(), x) {
        s.push(x)
    } else {
        insert_tp(x, s.drop_last()).push(s.last())
    }
}

/// Insertion sort of a window list.
pub open spec fn sort_tps(s: Seq<TextPartV>) -> Seq<TextPartV>
    decreases s.len(),
{
    if s.len() == 0 {
        s
    } else {
        insert_tp(s.last(), sort_tps(s.drop_last()))
    }
}

/// Pairwise sortedness of a window list by [`tp_le`].
pub open spec fn sorted_tps(s: Seq<TextPartV>) -> bool {
    forall|i: int, j: int| 0 <= i < j < s.len() ==> tp_le(#[trigger] s[i], #[trigger] s[j])
}

/// One step of adjacent deduplication: a window equal to the last kept one
/// is dropped.
pub open spec fn dedup_step(acc: Seq<TextPartV>, x: TextPartV) -> Seq<TextPartV> {
    if acc.len() > 0 && acc.last() == x {
        acc
    } else {
        acc.push(x)
    }
}

/// Adjacent deduplication, left to right.
pub open spec fn dedup_tps(s: Seq<TextPartV>) -> Seq<TextPartV>
    decreases s.len(),
{
    if s.len() == 0 {
        s
    } else {
        dedup_step(dedup_tps(s.drop_last()), s.last())
    }
}

/// A record with its window list sorted and deduplicated.
pub open spec fn normalize_texts(c: ConciseUrlCandidateV) -> ConciseUrlCandidateV {
    ConciseUrlCandidateV { texts: dedup_tps(sort_tps(c.texts)), ..c }
}

/// What the merger returns: the records sorted, runs of one merge key
/// folded into one record each, and every window list normalized.
pub open spec fn spec_merge(s: Seq<ConciseUrlCandidateV>) -> Seq<ConciseUrlCandidateV> {
    merge_runs(sort_cands(s)).map_values(|c: ConciseUrlCandidateV| normalize_texts(c))
}

/// Inserting at the scanned position matches the specified insertion.
proof fn lemma_insert_at(x: ConciseUrlCandidateV, s: Seq<ConciseUrlCandidateV>, j: int)
    requires
        0 <= j <= s.len(),
        forall|k: int| j <= k < s.len() ==> !cand_le(#[trigger] s[k], x),
        j == 0 || cand_le(s[j - 1], x),
    ensures
        insert_sorted(x, s) == s.take(j) + seq![x] + s.skip(j),
    decreases s.len(),
{
    if s.len() == 0 {
        assert(insert_sorted(x, s) =~= s.take(j) + seq![x] + s.skip(j));
    } else if j == s.len() {
        assert(cand_le(s.last(), x));
        assert(insert_sorted(x, s) == s.push(x));
        assert(s.push(x) =~= s.take(j) + seq![x] + s.skip(j));
    } else {
        assert(!cand_le(s.last(), x));
        let b = s.drop_last();
        assert forall|k: int| j <= k < b.len() implies !cand_le(#[trigger] b[k], x) by {
            assert(b[k] == s[k]);
        }
        if j > 0 {
            assert(b[j - 1] == s[j - 1]);
        }
        lemma_insert_at(x, b, j);
        assert(insert_sorted(x, s) == insert_sorted(x, b).push(s.last()));
        assert((b.take(j) + seq![x] + b.skip(j)).push(s.last()) =~= s.take(j) + seq![x]
            + s.skip(j));
    }
}

/// The same, for window lists.
proof fn lemma_insert_tp_at(x: TextPartV, s: Seq<TextPartV>, j: int)
    requires
        0 <= j <= s.len(),
        forall|k: int| j <= k < s.len() ==> !tp_le(#[trigger] s[k], x),
        j == 0 || tp_le(s[j - 1], x),
    ensures
        insert_tp(x, s) == s.take(j) + seq![x] + s.skip(j),
    decreases s.len(),
{
    if s.len() == 0 {
        assert(insert_tp(x, s) =~= s.take(j) + seq![x] + s.skip(j));
    } else if j == s.len() {
        assert(tp_le(s.last(), x));
        assert(insert_tp(x, s) == s.push(x));
        assert(s.push(x) =~= s.take(j) + seq![x] + s.skip(j));
    } else {
        assert(!tp_le(s.last(), x));
        let b = s.drop_last();
        assert forall|k: int| j <= k < b.len() implies !tp_le(#[trigger] b[k], x) by {
            assert(b[k] == s[k]);
        }
        if j > 0 {
            assert(b[j - 1] == s[j - 1]);
        }
        lemma_insert_tp_at(x, b, j);
        assert(insert_tp(x, s) == insert_tp(x, b).push(s.last()));
        assert((b.take(j) + seq![x] + b.skip(j)).push(s.last()) =~= s.take(j) + seq![x]
            + s.skip(j));
    }
}

/// Sort the records by the sort key, stably.
pub fn sort_candidates(input: &Vec<ConciseUrlCandidate>) -> (r: Vec<ConciseUrlCandidate>)
    ensures
        cand_views(r@) == sort_cands(cand_views(input@)),
{
    let n = input.len();
    let ghost iv = cand_views(input@);
    let mut out: Vec<ConciseUrlCandidate> = Vec::new();
    proof {
        assert(cand_views(out@) =~= sort_cands(iv.take(0)));
    }
    let mut i: usize = 0;
    while i < n
        invariant
            n == iv.len(),
            iv == cand_views(input@),
            n == input@.len(),
            i <= n,
            cand_views(out@) == sort_cands(iv.take(i as int)),
        decreases n - i,
    {
        let ghost pre = cand_views(out@);
        assert(iv[i as int] == input@[i as int]@);
        let x = clone_candidate(&input[i]);
        let mut j = out.len();
        proof {
            assert(pre.len() == out@.len());
        }
        while j > 0 && !cand_le_exec(&out[j - 1], &x)
            invariant
                j <= out@.len(),
                pre == cand_views(out@),
                pre.len() == out@.len(),
                x@ == iv[i as int],
                i < iv.len(),
                forall|k: int| j <= k < pre.len() ==> !cand_le(#[trigger] pre[k], x@),
            decreases j,
        {
            proof {
                assert(pre[j - 1] == out@[j - 1]@);
            }
            j -= 1;
        }
        proof {
            if j > 0 {
                assert(pre[j - 1] == out@[j - 1]@);
            }
            lemma_insert_at(x@, pre, j as int);
        }
        out.insert(j, x);
        i += 1;
        proof {
            assert(cand_views(out@) =~= pre.take(j as int) + seq![iv[i - 1]] + pre.skip(
                j as int,
            ));
            let t = iv.take(i as int);
            assert(t.drop_last() =~= iv.take(i - 1));
            assert(t.last() == iv[i - 1]);
            assert(sort_cands(t) == insert_sorted(iv[i - 1], sort_cands(iv.take(i - 1))));
            assert(cand_views(out@) =~= sort_cands(t));
        }
    }
    proof {
        assert(iv.take(n as int) =~= iv);
    }
    out
}

/// Sort a window list, stably.
fn sort_text_parts(input: &Vec<TextPart>) -> (r: Vec<TextPart>)
    ensures
        tp_views(r@) == sort_tps(tp_views(input@)),
{
    let n = input.len();
    let ghost iv = tp_views(input@);
    let mut out: Vec<TextPart> = Vec::new();
    proof {
        assert(tp_views(out@) =~= sort_tps(iv.take(0)));
    }
    let mut i: usize = 0;
    while i < n
        invariant
            n == iv.len(),
            iv == tp_views(input@),
            n == input@.len(),
            i <= n,
            tp_views(out@) == sort_tps(iv.take(i as int)),
        decreases n - i,
    {
        let ghost pre = tp_views(out@);
        assert(iv[i as int] == input@[i as int]@);
        let x = clone_text_part(&input[i]);
        let mut j = out.len();
        proof {
            assert(pre.len() == out@.len());
        }
        while j > 0 && !tp_le_exec(&out[j - 1], &x)
            invariant
                j <= out@.len(),
                pre == tp_views(out@),
                pre.len() == out@.len(),
                x@ == iv[i as int],
                i < iv.len(),
                forall|k: int| j <= k < pre.len() ==> !tp_le(#[trigger] pre[k], x@),
            decreases j,
        {
            proof {
                assert(pre[j - 1] == out@[j - 1]@);
            }
            j -= 1;
        }
        proof {
            if j > 0 {
                assert(pre[j - 1] == out@[j - 1]@);
            }
            lemma_insert_tp_at(x@, pre, j as int);
        }
        out.insert(j, x);
        i += 1;
        proof {
            assert(tp_views(out@) =~= pre.take(j as int) + seq![iv[i - 1]] + pre.skip(
                j as int,
            ));
            let t = iv.take(i as int);
            assert(t.drop_last() =~= iv.take(i - 1));
            assert(t.last() == iv[i - 1]);
            assert(sort_tps(t) == insert_tp(iv[i - 1], sort_tps(iv.take(i - 1))));
            assert(tp_views(out@) =~= sort_tps(t));
        }
    }
    proof {
        assert(iv.take(n as int) =~= iv);
    }
    out
}

/// Drop each window equal to the one kept just before it.
fn dedup_text_parts(input: &Vec<TextPart>) -> (r: Vec<TextPart>)
    ensures
        tp_views(r@) == dedup_tps(tp_views(input@)),
{
    let n = input.len();
    let ghost iv = tp_views(input@);
    let mut out: Vec<TextPart> = Vec::new();
    proof {
        assert(tp_views(out@) =~= dedup_tps(iv.take(0)));
    }
    let mut i: usize = 0;
    while i < n
        invariant
            n == iv.len(),
            iv == tp_views(input@),
            n == input@.len(),
            i <= n,
            tp_views(out@) == dedup_tps(iv.take(i as int)),
        decreases n - i,
    {
        let ghost pre = tp_views(out@);
        assert(iv[i as int] == input@[i as int]@);
        let keep = if out.len() > 0 {
            let last_i = out.len() - 1;
            proof {
                assert(pre[last_i as int] == out@[last_i as int]@);
            }
            !tp_eq_exec(&out[last_i], &input[i])
        } else {
            true
        };
        if keep {
            out.push(clone_text_part(&input[i]));
        }
        i += 1;
        proof {
            let t = iv.take(i as int);
            assert(t.drop_last() =~= iv.take(i - 1));
            assert(t.last() == iv[i - 1]);
            assert(dedup_tps(t) == dedup_step(dedup_tps(iv.take(i - 1)), iv[i - 1]));
            if keep {
                assert(tp_views(out@) =~= pre.push(iv[i - 1]));
            }
            assert(tp_views(out@) =~= dedup_tps(t));
        }
    }
    proof {
        assert(iv.take(n as int) =~= iv);
    }
    out
}

/// Fold runs of one merge key into single records (input taken sorted).
fn merge_runs_exec(sorted: &Vec<ConciseUrlCandidate>) -> (r: Vec<ConciseUrlCandidate>)
    ensures
        cand_views(r@) == merge_runs(cand_views(sorted@)),
{
    let n = sorted.len();
    let ghost iv = cand_views(sorted@);
    let mut out: Vec<ConciseUrlCandidate> = Vec::new();
    proof {
        assert(cand_views(out@) =~= merge_runs(iv.take(0)));
    }
    let mut i: usize = 0;
    while i < n
        invariant
            n == iv.len(),
            iv == cand_views(sorted@),
            n == sorted@.len(),
            i <= n,
            cand_views(out@) == merge_runs(iv.take(i as int)),
        decreases n - i,
    {
        let ghost pre = cand_views(out@);
        assert(iv[i as int] == sorted@[i as int]@);
        let x = &sorted[i];
        let mut fold_in = false;
        if out.len() > 0 {
            let last_i = out.len() - 1;
            proof {
                assert(pre[last_i as int] == out@[last_i as int]@);
            }
            if key4_eq_exec(&out[last_i], x) {
                fold_in = true;
            }
        }
        if fold_in {
            let last_i = out.len() - 1;
            let mut last = out.remove(last_i);
            let ghost last_v = last@;
            let m = x.texts.len();
            let mut t: usize = 0;
            while t < m
                invariant
                    m == x.texts@.len(),
                    t <= m,
                    last@ == (ConciseUrlCandidateV {
                        texts: last_v.texts + tp_views(x.texts@).take(t as int),
                        ..last_v
                    }),
                decreases m - t,
            {
                let ghost lv = last@;
                let w = clone_text_part(&x.texts[t]);
                proof {
                    assert(tp_views(x.texts@)[t as int] == x.texts@[t as int]@);
                }
                last.texts.push(w);
                t += 1;
                proof {
                    assert(tp_views(last.texts@) =~= lv.texts.push(w@));
                    assert(last@ =~~= (ConciseUrlCandidateV {
                        texts: last_v.texts + tp_views(x.texts@).take(t as int),
                        ..last_v
                    }));
                }
            }
            proof {
                assert(tp_views(x.texts@).take(m as int) =~= tp_views(x.texts@));
                assert(tp_views(x.texts@) == x@.texts);
            }
            out.push(last);
            i += 1;
            proof {
                let t2 = iv.take(i as int);
                assert(t2.drop_last() =~= iv.take(i - 1));
                assert(t2.last() == iv[i - 1]);
                assert(merge_runs(t2) == merge_step(pre, iv[i - 1]));
                assert(pre.len() > 0 && key4(pre.last()) == key4(iv[i - 1]));
                assert(merge_step(pre, iv[i - 1]) == pre.update(
                    pre.len() - 1,
                    ConciseUrlCandidateV {
                        texts: pre.last().texts + iv[i - 1].texts,
                        ..pre.last()
                    },
                ));
                assert(cand_views(out@) =~= merge_step(pre, iv[i - 1]));
            }
        } else {
            let xc = clone_candidate(x);
            out.push(xc);
            i += 1;
            proof {
                let t2 = iv.take(i as int);
                assert(t2.drop_last() =~= iv.take(i - 1));
                assert(t2.last() == iv[i - 1]);
                assert(merge_runs(t2) == merge_step(pre, iv[i - 1]));
                assert(cand_views(out@) =~= pre.push(iv[i - 1]));
                assert(cand_views(out@) =~= merge_step(pre, iv[i - 1]));
            }
        }
    }
    proof {
        assert(iv.take(n as int) =~= iv);
    }
    out
}

/// Sort and deduplicate each record's window list.
fn normalize_all(input: Vec<ConciseUrlCandidate>) -> (r: Vec<ConciseUrlCandidate>)
    ensures
        cand_views(r@) == cand_views(input@).map_values(
            |c: ConciseUrlCandidateV| normalize_texts(c),
        ),
{
    let ghost iv = cand_views(input@);
    let n = input.len();
    let mut out: Vec<ConciseUrlCandidate> = Vec::new();
    proof {
        assert(cand_views(out@) =~= iv.take(0).map_values(
            |c: ConciseUrlCandidateV| normalize_texts(c),
        ));
    }
    let mut i: usize = 0;
    while i < n
        invariant
            n == iv.len(),
            iv == cand_views(input@),
            n == input@.len(),
            i <= n,
            cand_views(out@) == iv.take(i as int).map_values(
                |c: ConciseUrlCandidateV| normalize_texts(c),
            ),
        decreases n - i,
    {
        let ghost pre = cand_views(out@);
        assert(iv[i as int] == input@[i as int]@);
        let c = &input[i];
        let sorted = sort_text_parts(&c.texts);
        let texts = dedup_text_parts(&sorted);
        let nc = ConciseUrlCandidate {
            statement_id: c.statement_id.clone(),
            url: c.url.clone(),
            property: crate::model::clone_opt_string(&c.property),
            external_id: crate::model::clone_opt_string(&c.external_id),
            stated_in: crate::model::clone_opt_string(&c.stated_in),
            language: c.language.clone(),
            texts,
        };
        proof {
            assert(nc@ =~~= normalize_texts(iv[i as int]));
        }
        out.push(nc);
        i += 1;
        proof {
            assert(cand_views(out@) =~= pre.push(normalize_texts(iv[i - 1])));
            assert(cand_views(out@) =~= iv.take(i as int).map_values(
                |c2: ConciseUrlCandidateV| normalize_texts(c2),
            ));
        }
    }
    proof {
        assert(iv.take(n as int) =~= iv);
    }
    out
}

/// Merge raw match records: sort them, fold records sharing the merge key
/// into one record each, and sort and deduplicate every window list. An
/// empty input merges to an empty output.
pub fn merge_cuc_candidates(input: &Vec<ConciseUrlCandidate>) -> (r: Vec<
    ConciseUrlCandidate,
>)
    ensures
        cand_views(r@) == spec_merge(cand_views(input@)),
{
    let sorted = sort_candidates(input);
    let merged = merge_runs_exec(&sorted);
    normalize_all(merged)
}

} // verus!
