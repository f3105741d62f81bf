//! The matcher: for one statement and every candidate document, search the
//! document's text for the statement's patterns and emit one record per
//! matching pattern, with the context window around the match.
//!
//! A statement that already references a candidate is never matched against
//! it, and statements of the citizenship property are never matched against
//! one known-problematic auction-house domain.

use vstd::prelude::*;

use crate::candidates::{
    ConciseUrlCandidate, ConciseUrlCandidateV, TextPart, TextPartV, UrlCandidate,
    UrlCandidateV,
};
use crate::model::{entities_view, Entity, EntityStatement, EntityStatementV, EntityV};
use crate::patterns::spec_statement_patterns;
use crate::refcheck::spec_has_reference;
use crate::referee::Referee;
use crate::regex_calls::{regex_window_search, window_search};
use crate::strutil::{all_blank, chars_of, contains_sub, has_sub, string_of, trimmed};

verus! {

/// The full pattern handed to the search: word boundaries around the value,
/// with up to sixty characters of context captured on each side.
pub open spec fn spec_wrap_pattern(p: Seq<char>) -> Seq<char> {
    "\\b(.{0,60})\\b("@ + p + ")\\b(.{0,60})\\b"@
}

/// The record emitted for one match window.
pub open spec fn record_of(
    sid: Seq<char>,
    uc: UrlCandidateV,
    w: (Seq<char>, Seq<char>, Seq<char>),
) -> ConciseUrlCandidateV {
    ConciseUrlCandidateV {
        statement_id: sid,
        url: uc.url,
        property: uc.property,
        external_id: uc.external_id,
        stated_in: uc.stated_in,
        language: uc.language,
        texts: seq![TextPartV { before: w.0, regexp_match: w.1, after: w.2 }],
    }
}

/// The records one candidate document yields for a list of patterns: blank
/// patterns are skipped, every other pattern is searched, and each match
/// becomes one record.
pub open spec fn spec_pattern_records(
    sid: Seq<char>,
    uc: UrlCandidateV,
    pats: Seq<Seq<char>>,
) -> Seq<ConciseUrlCandidateV>
    decreases pats.len(),
{
    if pats.len() == 0 {
        Seq::<ConciseUrlCandidateV>::empty()
    } else {
        let head = if trimmed(pats[0]).len() == 0 {
            Seq::<ConciseUrlCandidateV>::empty()
        } else {
            match window_search(spec_wrap_pattern(pats[0]), uc.text) {
                Option::Some(w) => seq![record_of(sid, uc, w)],
                Option::None => Seq::<ConciseUrlCandidateV>::empty(),
            }
        };
        head + spec_pattern_records(sid, uc, pats.skip(1))
    }
}

/// Whether the candidate is matched for this statement at all: its
/// references do not already cover it, and it is not the citizenship
/// property paired with the suppressed auction-house domain.
pub open spec fn candidate_considered(st: EntityStatementV, uc: UrlCandidateV) -> bool {
    &&& !spec_has_reference(st.claim, uc)
    &&& !(st.property == "P27"@ && contains_sub(uc.url, "www.invaluable.com"@))
}

/// All records one statement yields over a pool of candidate documents. A
/// statement without an id yields nothing.
pub open spec fn spec_process_statement(
    st: EntityStatementV,
    cands: Seq<UrlCandidateV>,
    entities: Seq<EntityV>,
) -> Seq<ConciseUrlCandidateV>
    decreases cands.len(),
{
    match st.claim.id {
        Option::None => Seq::<ConciseUrlCandidateV>::empty(),
        Option::Some(sid) => {
            if cands.len() == 0 {
                Seq::<ConciseUrlCandidateV>::empty()
            } else {
                let head = if candidate_considered(st, cands[0]) {
                    spec_pattern_records(
                        sid,
                        cands[0],
                        spec_statement_patterns(st, cands[0].language, entities),
                    )
                } else {
                    Seq::<ConciseUrlCandidateV>::empty()
                };
                head + spec_process_statement(st, cands.skip(1), entities)
            }
        },
    }
}

/// Wrap one pattern in the word-boundary window expression.
fn wrap_pattern(p: &str) -> (r: String)
    ensures
        r@ == spec_wrap_pattern(p@),
{
    let prefix = chars_of("\\b(.{0,60})\\b(");
    let suffix = chars_of(")\\b(.{0,60})\\b");
    let pv = chars_of(p);
    let mut out: Vec<char> = Vec::new();
    out.extend_from_slice(prefix.as_slice());
    out.extend_from_slice(pv.as_slice());
    out.extend_from_slice(suffix.as_slice());
    proof {
        assert(out@ =~= spec_wrap_pattern(p@));
    }
    string_of(out.as_slice())
}

impl Referee {
    /// All records one statement yields over the candidate pool.
    pub fn process_statement(
        &self,
        statement: &EntityStatement,
        url_candidates: &Vec<UrlCandidate>,
        entities: &Vec<Entity>,
    ) -> (r: Vec<ConciseUrlCandidate>)
        requires
            self.wf(),
        ensures
            r@.map_values(|c: ConciseUrlCandidate| c@) == spec_process_statement(
                statement@,
                url_candidates@.map_values(|u: UrlCandidate| u@),
                entities_view(entities@),
            ),
    {
        let ghost st = statement@;
        let ghost cv = url_candidates@.map_values(|u: UrlCandidate| u@);
        let ghost ev = entities_view(entities@);
        let mut out: Vec<ConciseUrlCandidate> = Vec::new();
        let statement_id = match &statement.claim.id {
            Option::Some(id) => id.clone(),
            Option::None => {
                proof {
                    assert(out@.map_values(|c: ConciseUrlCandidate| c@)
                        =~= Seq::<ConciseUrlCandidateV>::empty());
                }
                return out;
            },
        };
        let ghost sid = st.claim.id->Some_0;
        let n = url_candidates.len();
        proof {
            assert(cv.skip(0) =~= cv);
            assert(out@.map_values(|c: ConciseUrlCandidate| c@)
                =~= Seq::<ConciseUrlCandidateV>::empty());
            assert(Seq::<ConciseUrlCandidateV>::empty() + spec_process_statement(st, cv, ev)
                =~= spec_process_statement(st, cv, ev));
        }
        let mut i: usize = 0;
        while i < n
            invariant
                self.wf(),
                st == statement@,
                cv == url_candidates@.map_values(|u: UrlCandidate| u@),
                ev == entities_view(entities@),
                n == cv.len(),
                n == url_candidates@.len(),
                i <= n,
                st.claim.id == Option::Some(sid),
                statement_id@ == sid,
                spec_process_statement(st, cv, ev) == out@.map_values(
                    |c: ConciseUrlCandidate| c@,
                ) + spec_process_statement(st, cv.skip(i as int), ev),
            decreases n - i,
        {
            let ghost pre = out@;
            let ghost rest = cv.skip(i as int);
            assert(rest[0] == cv[i as int]);
            assert(cv[i as int] == url_candidates@[i as int]@);
            let uc = &url_candidates[i];
            let skip_ref = self.does_statement_have_this_reference(statement, uc);
            let p27 = "P27".to_owned();
            let mut suppressed = false;
            if statement.property.eq(&p27) {
                let uv = chars_of(uc.url.as_str());
                let frag = chars_of("www.invaluable.com");
                if has_sub(uv.as_slice(), frag.as_slice()) {
                    suppressed = true;
                }
            }
            if !skip_ref && !suppressed {
                assert(candidate_considered(st, rest[0]));
                let pats = self.get_statement_search_patterns(
                    statement,
                    uc.language.as_str(),
                    entities,
                );
                let ghost pv = pats@.map_values(|s: String| s@);
                let m = pats.len();
                proof {
                    assert(pv.skip(0) =~= pv);
                    assert(pre.map_values(|c: ConciseUrlCandidate| c@) + Seq::<
                        ConciseUrlCandidateV,
                    >::empty() =~= pre.map_values(|c: ConciseUrlCandidate| c@));
                }
                let mut j: usize = 0;
                while j < m
                    invariant
                        st == statement@,
                        m == pv.len(),
                        m == pats@.len(),
                        pv == pats@.map_values(|s: String| s@),
                        j <= m,
                        rest == cv.skip(i as int),
                        i < cv.len(),
                        i < url_candidates@.len(),
                        rest[0] == cv[i as int],
                        uc@ == rest[0],
                        statement_id@ == sid,
                        out@.map_values(|c: ConciseUrlCandidate| c@) == pre.map_values(
                            |c: ConciseUrlCandidate| c@,
                        ) + spec_pattern_records(sid, rest[0], pv.take(j as int)),
                        url_candidates@[i as int]@ == rest[0],
                    decreases m - j,
                {
                    let ghost outpre = out@;
                    assert(pv[j as int] == pats@[j as int]@);
                    let pc = chars_of(pats[j].as_str());
                    let blank = all_blank(pc.as_slice());
                    if !blank {
                        let wrapped = wrap_pattern(pats[j].as_str());
                        match regex_window_search(wrapped.as_str(), uc.text.as_str()) {
                            Some(w) => {
                                let ghost wv = (w.0@, w.1@, w.2@);
                                let (before, matched, after) = w;
                                let tp = TextPart {
                                    before,
                                    regexp_match: matched,
                                    after,
                                };
                                proof {
                                    assert(tp@ =~= (TextPartV {
                                        before: wv.0,
                                        regexp_match: wv.1,
                                        after: wv.2,
                                    }));
                                }
                                let rec = ConciseUrlCandidate::new(
                                    statement_id.as_str(),
                                    uc,
                                    &tp,
                                );
                                proof {
                                    assert(rec@ =~~= record_of(sid, rest[0], wv));
                                }
                                let ghost before_push = out@;
                                out.push(rec);
                                proof {
                                    assert(out@ =~= before_push.push(rec));
                                    assert(out@.map_values(|c: ConciseUrlCandidate| c@)
                                        =~= before_push.map_values(
                                        |c: ConciseUrlCandidate| c@,
                                    ) + seq![record_of(sid, rest[0], wv)]);
                                }
                            },
                            None => {},
                        }
                    }
                    j += 1;
                    proof {
                        let t = pv.take(j as int);
                        assert(t.drop_last() =~= pv.take(j - 1));
                        assert(t.last() == pv[j - 1]);
                        lemma_pattern_records_step(sid, rest[0], pv, j as int);
                        assert(out@.map_values(|c: ConciseUrlCandidate| c@)
                            =~= pre.map_values(|c: ConciseUrlCandidate| c@)
                            + spec_pattern_records(sid, rest[0], t));
                    }
                }
                proof {
                    assert(pv.take(m as int) =~= pv);
                }
            } else {
                proof {
                    assert(!candidate_considered(st, rest[0]));
                }
            }
            i += 1;
            proof {
                assert(rest.skip(1) =~= cv.skip(i as int));
                let tail = spec_process_statement(st, cv.skip(i as int), ev);
                let head = if candidate_considered(st, rest[0]) {
                    spec_pattern_records(
                        sid,
                        rest[0],
                        spec_statement_patterns(st, rest[0].language, ev),
                    )
                } else {
                    Seq::<ConciseUrlCandidateV>::empty()
                };
                assert(spec_process_statement(st, rest, ev) == head + tail);
                assert(pre.map_values(|c: ConciseUrlCandidate| c@) + (head + tail)
                    =~= out@.map_values(|c: ConciseUrlCandidate| c@) + tail);
            }
        }
        proof {
            assert(cv.skip(n as int) =~= Seq::<UrlCandidateV>::empty());
            assert(out@.map_values(|c: ConciseUrlCandidate| c@) + Seq::<
                ConciseUrlCandidateV,
            >::empty() =~= out@.map_values(|c: ConciseUrlCandidate| c@));
        }
        out
    }
}

/// Taking one more pattern extends the emitted records by that pattern's
/// contribution.
proof fn lemma_pattern_records_step(
    sid: Seq<char>,
    uc: UrlCandidateV,
    pats: Seq<Seq<char>>,
    j: int,
)
    requires
        0 < j <= pats.len(),
    ensures
        spec_pattern_records(sid, uc, pats.take(j)) == spec_pattern_records(
            sid,
            uc,
            pats.take(j - 1),
        ) + (if trimmed(pats[j - 1]).len() == 0 {
            Seq::<ConciseUrlCandidateV>::empty()
        } else {
            match window_search(spec_wrap_pattern(pats[j - 1]), uc.text) {
                Option::Some(w) => seq![record_of(sid, uc, w)],
                Option::None => Seq::<ConciseUrlCandidateV>::empty(),
            }
        }),
    decreases j,
{
    if j == 1 {
        assert(pats.take(1).skip(1) =~= Seq::<Seq<char>>::empty());
        assert(pats.take(1)[0] == pats[0]);
        assert(pats.take(0) =~= Seq::<Seq<char>>::empty());
        assert(spec_pattern_records(sid, uc, pats.take(0))
            =~= Seq::<ConciseUrlCandidateV>::empty());
        let head = if trimmed(pats[0]).len() == 0 {
            Seq::<ConciseUrlCandidateV>::empty()
        } else {
            match window_search(spec_wrap_pattern(pats[0]), uc.text) {
                Option::Some(w) => seq![record_of(sid, uc, w)],
                Option::None => Seq::<ConciseUrlCandidateV>::empty(),
            }
        };
        assert(spec_pattern_records(sid, uc, pats.take(1)) == head + spec_pattern_records(
            sid,
            uc,
            pats.take(1).skip(1),
        ));
        assert(spec_pattern_records(sid, uc, pats.take(1)) =~= spec_pattern_records(
            sid,
            uc,
            pats.take(0),
        ) + head);
    } else {
        lemma_pattern_records_step(sid, uc, pats.skip(1), j - 1);
        assert(pats.take(j)[0] == pats[0]);
        assert(pats.take(j).skip(1) =~= pats.skip(1).take(j - 1));
        assert(pats.take(j - 1)[0] == pats[0]);
        assert(pats.take(j - 1).skip(1) =~= pats.skip(1).take(j - 2));
        assert(pats.skip(1)[j - 2] == pats[j - 1]);
        let head0 = if trimmed(pats[0]).len() == 0 {
            Seq::<ConciseUrlCandidateV>::empty()
        } else {
            match window_search(spec_wrap_pattern(pats[0]), uc.text) {
                Option::Some(w) => seq![record_of(sid, uc, w)],
                Option::None => Seq::<ConciseUrlCandidateV>::empty(),
            }
        };
        let tail_new = if trimmed(pats[j - 1]).len() == 0 {
            Seq::<ConciseUrlCandidateV>::empty()
        } else {
            match window_search(spec_wrap_pattern(pats[j - 1]), uc.text) {
                Option::Some(w) => seq![record_of(sid, uc, w)],
                Option::None => Seq::<ConciseUrlCandidateV>::empty(),
            }
        };
        assert(spec_pattern_records(sid, uc, pats.take(j)) == head0 + spec_pattern_records(
            sid,
            uc,
            pats.skip(1).take(j - 1),
        ));
        assert(spec_pattern_records(sid, uc, pats.take(j - 1)) == head0
            + spec_pattern_records(sid, uc, pats.skip(1).take(j - 2)));
        assert(head0 + (spec_pattern_records(sid, uc, pats.skip(1).take(j - 2)) + tail_new)
            =~= (head0 + spec_pattern_records(sid, uc, pats.skip(1).take(j - 2))) + tail_new);
    }
}

/// A candidate whose URL the statement already references, and whose URL no
/// other candidate shares, yields no record: every record the statement
/// produces names a different URL.
pub proof fn lemma_referenced_candidate_skipped(
    st: EntityStatementV,
    cands: Seq<UrlCandidateV>,
    entities: Seq<EntityV>,
    j: int,
)
    requires
        0 <= j < cands.len(),
        !candidate_considered(st, cands[j]),
        forall|i: int| 0 <= i < cands.len() && i != j ==> (#[trigger] cands[i]).url
            != cands[j].url,
    ensures
        forall|r: int| 0 <= r < spec_process_statement(st, cands, entities).len()
            ==> (#[trigger] spec_process_statement(st, cands, entities)[r]).url
            != cands[j].url,
    decreases cands.len(),
{
    match st.claim.id {
        Option::None => {},
        Option::Some(sid) => {
            let head = if candidate_considered(st, cands[0]) {
                spec_pattern_records(
                    sid,
                    cands[0],
                    spec_statement_patterns(st, cands[0].language, entities),
                )
            } else {
                Seq::<ConciseUrlCandidateV>::empty()
            };
            let tail = spec_process_statement(st, cands.skip(1), entities);
            assert(spec_process_statement(st, cands, entities) == head + tail);
            lemma_pattern_records_urls(
                sid,
                cands[0],
                spec_statement_patterns(st, cands[0].language, entities),
            );
            if j == 0 {
                assert(head =~= Seq::<ConciseUrlCandidateV>::empty());
                assert forall|i: int| 0 <= i < cands.skip(1).len() implies (#[trigger] cands.skip(
                    1,
                )[i]).url != cands[0].url by {
                    assert(cands.skip(1)[i] == cands[i + 1]);
                }
                lemma_process_statement_urls(st, cands.skip(1), entities, cands[0].url);
            } else {
                assert(cands.skip(1)[j - 1] == cands[j]);
                assert forall|i: int| 0 <= i < cands.skip(1).len() && i != j - 1 implies (
                #[trigger] cands.skip(1)[i]).url != cands.skip(1)[j - 1].url by {
                    assert(cands.skip(1)[i] == cands[i + 1]);
                }
                lemma_referenced_candidate_skipped(st, cands.skip(1), entities, j - 1);
                assert(cands[0].url != cands[j].url);
            }
        },
    }
}

/// Every record a pattern search of one candidate emits carries that
/// candidate's URL.
proof fn lemma_pattern_records_urls(sid: Seq<char>, uc: UrlCandidateV, pats: Seq<Seq<char>>)
    ensures
        forall|r: int| 0 <= r < spec_pattern_records(sid, uc, pats).len() ==> (
        #[trigger] spec_pattern_records(sid, uc, pats)[r]).url == uc.url,
    decreases pats.len(),
{
    if pats.len() > 0 {
        lemma_pattern_records_urls(sid, uc, pats.skip(1));
    }
}

/// If no candidate carries the URL `u`, no emitted record names it.
proof fn lemma_process_statement_urls(
    st: EntityStatementV,
    cands: Seq<UrlCandidateV>,
    entities: Seq<EntityV>,
    u: Seq<char>,
)
    requires
        forall|i: int| 0 <= i < cands.len() ==> (#[trigger] cands[i]).url != u,
    ensures
        forall|r: int| 0 <= r < spec_process_statement(st, cands, entities).len()
            ==> (#[trigger] spec_process_statement(st, cands, entities)[r]).url != u,
    decreases cands.len(),
{
    match st.claim.id {
        Option::None => {},
        Option::Some(sid) => {
            if cands.len() > 0 {
                assert forall|i: int| 0 <= i < cands.skip(1).len() implies (#[trigger] cands.skip(
                    1,
                )[i]).url != u by {
                    assert(cands.skip(1)[i] == cands[i + 1]);
                }
                lemma_process_statement_urls(st, cands.skip(1), entities, u);
                lemma_pattern_records_urls(
                    sid,
                    cands[0],
                    spec_statement_patterns(st, cands[0].language, entities),
                );
            }
        },
    }
}

} // verus!
