//! The pipeline: what to fetch for an entity, and what the fetched
//! documents mean.
//!
//! The caller drives three stages. [`Referee::plan`] decides from the
//! loaded entity whether anything is to be done at all and what to fetch
//! first; [`Referee::collect_targets`] turns the fetched link listings and
//! loaded property entities into the pool of candidate URLs;
//! [`Referee::finish`] turns the fetched documents into the merged list of
//! proposed references. An unsupported entity and an entity without
//! eligible statements end the pipeline at the first stage, before any
//! fetch is requested.

use vstd::prelude::*;

use crate::candidates::{
    cand_views, ConciseUrlCandidate, ConciseUrlCandidateV, UrlCandidate, UrlCandidateV,
    UrlType,
};
use crate::collect::{
    dedup_first, external_id_pairs, get_direct_websites, select_external_links,
    spec_dedup_first, spec_direct_websites, spec_external_pairs, spec_select_links,
    spec_wiki_requests, wiki_page_requests, WikiPageRequest, WikiPageRequestV,
};
use crate::lang::{guess_page_language_from_text, spec_guess_language};
use crate::matcher::spec_process_statement;
use crate::merge::{merge_cuc_candidates, spec_merge};
use crate::model::{
    entities_view, spec_first_claim, spec_lookup, spec_string_values, DataValue, DataValueV,
    Entity, EntityStatement, EntityStatementV, EntityV,
};
use crate::referee::{
    spec_eligible_statements, spec_supported, Referee,
};
use crate::strutil::{contains_string, replaced, string_of};
use crate::text::{html2text, spec_html2text};

verus! {

/// Everything the first stage asks the caller to fetch and load.
pub struct FetchPlan {
    /// The eligible statements, carried through to the final stage.
    pub statements: Vec<EntityStatement>,
    /// One outbound-link listing to fetch per main-namespace sitelink.
    pub wiki_requests: Vec<WikiPageRequest>,
    /// The entity's own website URLs, to be fetched directly.
    pub direct_urls: Vec<String>,
    /// The external-identifier pairs whose formatter URLs are wanted.
    pub external_pairs: Vec<(String, String)>,
    /// The ids of the entities to load: the identifier properties and the
    /// entities linked from eligible statements.
    pub entities_to_load: Vec<String>,
}

/// The outcome of the first stage.
pub enum PlanOutcome {
    /// The entity is of an excluded type; the result is empty and nothing
    /// is fetched.
    Unsupported,
    /// No statement is eligible; the result is empty and nothing is
    /// fetched.
    NoEligibleStatements,
    /// Work to do.
    Plan(FetchPlan),
}

/// One URL to fetch, with its provenance.
pub struct FetchTarget {
    pub url: String,
    pub url_type: UrlType,
    pub property: Option<String>,
    pub external_id: Option<String>,
}

/// Mathematical view of a [`FetchTarget`].
#[verifier::ext_equal]
pub struct FetchTargetV {
    pub url: Seq<char>,
    pub url_type: UrlType,
    pub property: Option<Seq<char>>,
    pub external_id: Option<Seq<char>>,
}

impl View for FetchTarget {
    type V = FetchTargetV;

    open spec fn view(&self) -> FetchTargetV {
        FetchTargetV {
            url: self.url@,
            url_type: self.url_type,
            property: crate::order::opt_view(self.property),
            external_id: crate::order::opt_view(self.external_id),
        }
    }
}

/// One fetched document: its target and the raw bytes as text (empty when
/// the fetch failed or was refused).
pub struct FetchedDoc {
    pub target: FetchTarget,
    pub html: String,
}

/// Mathematical view of a [`FetchedDoc`].
#[verifier::ext_equal]
pub struct FetchedDocV {
    pub target: FetchTargetV,
    pub html: Seq<char>,
}

impl View for FetchedDoc {
    type V = FetchedDocV;

    open spec fn view(&self) -> FetchedDocV {
        FetchedDocV { target: self.target@, html: self.html@ }
    }
}

/// The entity ids linked from the eligible statements' values.
pub open spec fn spec_linked_ids(sts: Seq<EntityStatementV>) -> Seq<Seq<char>>
    decreases sts.len(),
{
    if sts.len() == 0 {
        Seq::<Seq<char>>::empty()
    } else {
        let head = match sts[0].claim.main.value {
            Option::Some(DataValueV::EntityId(id)) => seq![id],
            _ => Seq::<Seq<char>>::empty(),
        };
        head + spec_linked_ids(sts.skip(1))
    }
}

/// The first components of the external pairs.
pub open spec fn spec_pair_properties(pairs: Seq<(Seq<char>, Seq<char>)>) -> Seq<Seq<char>>
    decreases pairs.len(),
{
    if pairs.len() == 0 {
        Seq::<Seq<char>>::empty()
    } else {
        seq![pairs[0].0] + spec_pair_properties(pairs.skip(1))
    }
}

/// The ids of the entities the pipeline wants loaded for an entity.
pub open spec fn spec_entities_to_load(e: EntityV) -> Seq<Seq<char>> {
    spec_dedup_first(
        spec_pair_properties(spec_external_pairs(e)) + spec_linked_ids(
            spec_eligible_statements(e.claims, e.id),
        ),
    )
}

/// The wiki-sourced targets: each listing's links filtered, in order.
pub open spec fn spec_wiki_targets(listings: Seq<Seq<Seq<char>>>) -> Seq<FetchTargetV>
    decreases listings.len(),
{
    if listings.len() == 0 {
        Seq::<FetchTargetV>::empty()
    } else {
        spec_select_links(listings[0]).map_values(
            |u: Seq<char>| FetchTargetV {
                url: u,
                url_type: UrlType::WikiExternal,
                property: Option::None,
                external_id: Option::None,
            },
        ) + spec_wiki_targets(listings.skip(1))
    }
}

/// The direct-website targets.
pub open spec fn spec_direct_targets(urls: Seq<Seq<char>>) -> Seq<FetchTargetV> {
    urls.map_values(
        |u: Seq<char>| FetchTargetV {
            url: u,
            url_type: UrlType::DirectWebsite,
            property: Option::None,
            external_id: Option::None,
        },
    )
}

/// The formatter-URL targets: each pair's property entity yields its first
/// formatter URL with the identifier substituted; a URL already produced is
/// skipped.
pub open spec fn spec_ext_targets(
    pairs: Seq<(Seq<char>, Seq<char>)>,
    entities: Seq<EntityV>,
    used: Seq<Seq<char>>,
) -> Seq<FetchTargetV>
    decreases pairs.len(),
{
    if pairs.len() == 0 {
        Seq::<FetchTargetV>::empty()
    } else {
        match spec_lookup(entities, pairs[0].0) {
            Option::None => spec_ext_targets(pairs.skip(1), entities, used),
            Option::Some(pe) => {
                let fms = spec_string_values(pe.claims, "P1630"@);
                if fms.len() == 0 {
                    spec_ext_targets(pairs.skip(1), entities, used)
                } else {
                    let url = replaced(fms[0], "$1"@, pairs[0].1);
                    if used.contains(url) {
                        spec_ext_targets(pairs.skip(1), entities, used)
                    } else {
                        seq![
                            FetchTargetV {
                                url: url,
                                url_type: UrlType::ExternalId,
                                property: Option::Some(pairs[0].0),
                                external_id: Option::Some(pairs[0].1),
                            },
                        ] + spec_ext_targets(pairs.skip(1), entities, used.push(url))
                    }
                }
            },
        }
    }
}

/// All fetch targets of the second stage, wiki links first, then direct
/// websites, then formatter URLs.
pub open spec fn spec_collect_targets(
    listings: Seq<Seq<Seq<char>>>,
    direct: Seq<Seq<char>>,
    pairs: Seq<(Seq<char>, Seq<char>)>,
    entities: Seq<EntityV>,
) -> Seq<FetchTargetV> {
    spec_wiki_targets(listings) + spec_direct_targets(direct) + spec_ext_targets(
        pairs,
        entities,
        Seq::<Seq<char>>::empty(),
    )
}

/// The candidate one fetched document yields.
pub open spec fn spec_candidate_of(d: FetchedDocV) -> UrlCandidateV {
    UrlCandidateV {
        url: d.target.url,
        url_type: d.target.url_type,
        property: d.target.property,
        external_id: d.target.external_id,
        stated_in: Option::None,
        language: spec_guess_language(spec_html2text(d.html)),
        text: spec_html2text(d.html),
    }
}

/// Insert a candidate into the pool: a candidate with the same URL is
/// replaced in place, anything else is appended.
pub open spec fn spec_upsert(acc: Seq<UrlCandidateV>, c: UrlCandidateV) -> Seq<UrlCandidateV>
    decreases acc.len(),
{
    if acc.len() == 0 {
        seq![c]
    } else if acc[0].url == c.url {
        seq![c] + acc.skip(1)
    } else {
        seq![acc[0]] + spec_upsert(acc.skip(1), c)
    }
}

/// The candidate pool of the fetched documents: failed fetches yield
/// nothing; a URL fetched more than once keeps the later provenance.
pub open spec fn spec_build_candidates(docs: Seq<FetchedDocV>) -> Seq<UrlCandidateV>
    decreases docs.len(),
{
    if docs.len() == 0 {
        Seq::<UrlCandidateV>::empty()
    } else {
        let p = spec_build_candidates(docs.drop_last());
        if docs.last().html.len() == 0 {
            p
        } else {
            spec_upsert(p, spec_candidate_of(docs.last()))
        }
    }
}

/// The stated-in entity of a property, from its first stated-in claim.
pub open spec fn spec_stated_in_value(entities: Seq<EntityV>, prop: Seq<char>) -> Option<
    Seq<char>,
> {
    match spec_lookup(entities, prop) {
        Option::None => Option::None,
        Option::Some(pe) => match spec_first_claim(pe.claims, "P9073"@) {
            Option::Some(c) => match c.main.value {
                Option::Some(DataValueV::EntityId(id)) => Option::Some(id),
                _ => Option::None,
            },
            Option::None => Option::None,
        },
    }
}

/// A candidate with its stated-in value attached where one can be derived.
pub open spec fn spec_with_stated_in(c: UrlCandidateV, entities: Seq<EntityV>) -> UrlCandidateV {
    match c.property {
        Option::None => c,
        Option::Some(p) => match spec_stated_in_value(entities, p) {
            Option::Some(si) => UrlCandidateV { stated_in: Option::Some(si), ..c },
            Option::None => c,
        },
    }
}

/// All raw records of all statements over the candidate pool.
pub open spec fn spec_all_records(
    sts: Seq<EntityStatementV>,
    cands: Seq<UrlCandidateV>,
    entities: Seq<EntityV>,
) -> Seq<ConciseUrlCandidateV>
    decreases sts.len(),
{
    if sts.len() == 0 {
        Seq::<ConciseUrlCandidateV>::empty()
    } else {
        spec_process_statement(sts[0], cands, entities) + spec_all_records(
            sts.skip(1),
            cands,
            entities,
        )
    }
}

/// Statements for the described-at-URL property removed before matching is
/// accounted: such statements are satisfied by their own existence, so
/// their matches never reach the output.
pub open spec fn spec_matchable_statements(sts: Seq<EntityStatementV>) -> Seq<
    EntityStatementV,
>
    decreases sts.len(),
{
    if sts.len() == 0 {
        sts
    } else {
        let head = if sts[0].property == "P973"@ {
            Seq::<EntityStatementV>::empty()
        } else {
            seq![sts[0]]
        };
        head + spec_matchable_statements(sts.skip(1))
    }
}

/// Records for the described-at-URL property removed: such statements are
/// satisfied by their own existence.
pub open spec fn spec_drop_described(s: Seq<ConciseUrlCandidateV>) -> Seq<
    ConciseUrlCandidateV,
>
    decreases s.len(),
{
    if s.len() == 0 {
        s
    } else {
        let head = if s[0].property == Option::Some("P973"@) {
            Seq::<ConciseUrlCandidateV>::empty()
        } else {
            seq![s[0]]
        };
        head + spec_drop_described(s.skip(1))
    }
}

/// What the final stage returns for given statements, documents and loaded
/// entities.
pub open spec fn spec_finish(
    sts: Seq<EntityStatementV>,
    docs: Seq<FetchedDocV>,
    entities: Seq<EntityV>,
) -> Seq<ConciseUrlCandidateV> {
    let pool = spec_build_candidates(docs).map_values(
        |c: UrlCandidateV| spec_with_stated_in(c, entities),
    );
    spec_merge(
        spec_drop_described(
            spec_all_records(spec_matchable_statements(sts), pool, entities),
        ),
    )
}

proof fn lemma_upsert_no_match(acc: Seq<UrlCandidateV>, c: UrlCandidateV)
    requires
        forall|k: int| 0 <= k < acc.len() ==> (#[trigger] acc[k]).url != c.url,
    ensures
        spec_upsert(acc, c) == acc.push(c),
    decreases acc.len(),
{
    if acc.len() > 0 {
        assert forall|k: int| 0 <= k < acc.skip(1).len() implies (#[trigger] acc.skip(1)[k]).url
            != c.url by {
            assert(acc.skip(1)[k] == acc[k + 1]);
        }
        lemma_upsert_no_match(acc.skip(1), c);
        assert(seq![acc[0]] + acc.skip(1).push(c) =~= acc.push(c));
    }
}

proof fn lemma_upsert_match(acc: Seq<UrlCandidateV>, c: UrlCandidateV, i: int)
    requires
        0 <= i < acc.len(),
        acc[i].url == c.url,
        forall|k: int| 0 <= k < i ==> (#[trigger] acc[k]).url != c.url,
    ensures
        spec_upsert(acc, c) == acc.update(i, c),
    decreases acc.len(),
{
    if i == 0 {
        assert(seq![c] + acc.skip(1) =~= acc.update(0, c));
    } else {
        assert(acc.skip(1)[i - 1] == acc[i]);
        assert forall|k: int| 0 <= k < i - 1 implies (#[trigger] acc.skip(1)[k]).url != c.url
            by {
            assert(acc.skip(1)[k] == acc[k + 1]);
        }
        lemma_upsert_match(acc.skip(1), c, i - 1);
        assert(seq![acc[0]] + acc.skip(1).update(i - 1, c) =~= acc.update(i, c));
    }
}

/// Insert a candidate into the pool, replacing one with the same URL.
fn upsert_candidate(pool: &mut Vec<UrlCandidate>, c: UrlCandidate)
    ensures
        final(pool)@.map_values(|u: UrlCandidate| u@) == spec_upsert(
            old(pool)@.map_values(|u: UrlCandidate| u@),
            c@,
        ),
{
    let ghost pv = pool@.map_values(|u: UrlCandidate| u@);
    let ghost cv = c@;
    let n = pool.len();
    let mut i: usize = 0;
    let mut found: Option<usize> = Option::None;
    while i < n
        invariant
            n == pv.len(),
            pv == pool@.map_values(|u: UrlCandidate| u@),
            n == pool@.len(),
            i <= n,
            cv == c@,
            match found {
                Option::Some(fi) => fi < i && pv[fi as int].url == cv.url && forall|k: int|
                    0 <= k < fi ==> (#[trigger] pv[k]).url != cv.url,
                Option::None => forall|k: int| 0 <= k < i ==> (#[trigger] pv[k]).url
                    != cv.url,
            },
        decreases n - i,
    {
        let not_found = match found {
            Option::None => true,
            Option::Some(_) => false,
        };
        if not_found {
            assert(pv[i as int] == pool@[i as int]@);
            if pool[i].url.eq(&c.url) {
                found = Option::Some(i);
            }
        }
        i += 1;
    }
    match found {
        Option::Some(fi) => {
            proof {
                lemma_upsert_match(pv, cv, fi as int);
            }
            pool.remove(fi);
            let ghost mid = pool@;
            pool.insert(fi, c);
            proof {
                assert(pool@ =~= old(pool)@.update(fi as int, c));
                assert(pool@.map_values(|u: UrlCandidate| u@) =~= pv.update(fi as int, cv));
            }
        },
        Option::None => {
            proof {
                lemma_upsert_no_match(pv, cv);
            }
            pool.push(c);
            proof {
                assert(pool@ =~= old(pool)@.push(c));
                assert(pool@.map_values(|u: UrlCandidate| u@) =~= pv.push(cv));
            }
        },
    }
}

impl Referee {
    /// The first stage: from the loaded entity, either a short-circuit (an
    /// unsupported entity type, or no eligible statement, each yielding the
    /// empty result with nothing fetched) or the fetch plan.
    pub fn plan(&self, entity: &Entity) -> (r: PlanOutcome)
        requires
            self.wf(),
        ensures
            (r is Unsupported) == !spec_supported(entity@),
            spec_supported(entity@) ==> ((r is NoEligibleStatements) == (
            spec_eligible_statements(entity@.claims, entity@.id).len() == 0)),
            match r {
                PlanOutcome::Plan(p) => {
                    &&& p.statements@.map_values(|s: EntityStatement| s@)
                        == spec_eligible_statements(entity@.claims, entity@.id)
                    &&& p.wiki_requests@.map_values(|w: WikiPageRequest| w@)
                        == spec_wiki_requests(entity@.sitelinks)
                    &&& p.direct_urls@.map_values(|s: String| s@) == spec_direct_websites(
                        entity@,
                    )
                    &&& p.external_pairs@.map_values(|q: (String, String)| (q.0@, q.1@))
                        == spec_external_pairs(entity@)
                    &&& p.entities_to_load@.map_values(|s: String| s@)
                        == spec_entities_to_load(entity@)
                },
                _ => true,
            },
    {
        if !self.is_supported_entity(entity) {
            return PlanOutcome::Unsupported;
        }
        let statements = self.get_statements_needing_references(entity);
        if statements.len() == 0 {
            proof {
                assert(statements@.map_values(|s: EntityStatement| s@).len() == 0);
            }
            return PlanOutcome::NoEligibleStatements;
        }
        let wiki_requests = wiki_page_requests(entity);
        let direct_urls = get_direct_websites(entity);
        let external_pairs = external_id_pairs(entity);
        // properties of the identifier pairs, then linked entity ids
        let mut ids: Vec<String> = Vec::new();
        let np = external_pairs.len();
        let ghost pp = spec_pair_properties(spec_external_pairs(entity@));
        let ghost pev = external_pairs@.map_values(|q: (String, String)| (q.0@, q.1@));
        let mut i: usize = 0;
        proof {
            assert(pev.skip(0) =~= pev);
            assert(ids@.map_values(|s: String| s@) =~= Seq::<Seq<char>>::empty());
            assert(Seq::<Seq<char>>::empty() + spec_pair_properties(pev)
                =~= spec_pair_properties(pev));
        }
        while i < np
            invariant
                np == pev.len(),
                pev == external_pairs@.map_values(|q: (String, String)| (q.0@, q.1@)),
                np == external_pairs@.len(),
                i <= np,
                spec_pair_properties(pev) == ids@.map_values(|s: String| s@)
                    + spec_pair_properties(pev.skip(i as int)),
            decreases np - i,
        {
            let ghost pre = ids@;
            let ghost rest = pev.skip(i as int);
            assert(rest[0] == pev[i as int]);
            assert(pev[i as int] == (external_pairs@[i as int].0@, external_pairs@[i as int].1@));
            ids.push(external_pairs[i].0.clone());
            i += 1;
            proof {
                assert(rest.skip(1) =~= pev.skip(i as int));
                assert(ids@.map_values(|s: String| s@) =~= pre.map_values(|s: String| s@)
                    + seq![rest[0].0]);
                let tail = spec_pair_properties(pev.skip(i as int));
                assert(spec_pair_properties(rest) == seq![rest[0].0] + tail);
                assert(pre.map_values(|s: String| s@) + (seq![rest[0].0] + tail)
                    =~= ids@.map_values(|s: String| s@) + tail);
            }
        }
        proof {
            assert(pev.skip(np as int) =~= Seq::<(Seq<char>, Seq<char>)>::empty());
            assert(ids@.map_values(|s: String| s@) + Seq::<Seq<char>>::empty()
                =~= ids@.map_values(|s: String| s@));
        }
        // linked entity ids of the eligible statements
        let ns = statements.len();
        let ghost sv = statements@.map_values(|s: EntityStatement| s@);
        let ghost ids_props = ids@.map_values(|s: String| s@);
        let mut j: usize = 0;
        proof {
            assert(sv.skip(0) =~= sv);
            assert(ids_props + Seq::<Seq<char>>::empty() =~= ids_props);
        }
        while j < ns
            invariant
                ns == sv.len(),
                sv == statements@.map_values(|s: EntityStatement| s@),
                ns == statements@.len(),
                j <= ns,
                ids@.map_values(|s: String| s@) == ids_props + spec_linked_ids(
                    sv.take(j as int),
                ),
            decreases ns - j,
        {
            let ghost pre = ids@;
            assert(sv[j as int] == statements@[j as int]@);
            match &statements[j].claim.main.value {
                Option::Some(DataValue::EntityId(id)) => {
                    ids.push(id.clone());
                    proof {
                        assert(ids@.map_values(|s: String| s@) =~= pre.map_values(
                            |s: String| s@,
                        ) + seq![id@]);
                    }
                },
                _ => {},
            }
            j += 1;
            proof {
                let t = sv.take(j as int);
                assert(t.drop_last() =~= sv.take(j - 1));
                assert(t.last() == sv[j - 1]);
                lemma_linked_ids_step(sv, j as int);
                assert(ids@.map_values(|s: String| s@) =~= ids_props + spec_linked_ids(t));
            }
        }
        proof {
            assert(sv.take(ns as int) =~= sv);
        }
        let entities_to_load = dedup_first(&ids);
        PlanOutcome::Plan(
            FetchPlan {
                statements,
                wiki_requests,
                direct_urls,
                external_pairs,
                entities_to_load,
            },
        )
    }

    /// The second stage: the pool of URLs to fetch, from the filtered
    /// outbound links (one listing per wiki request, in order), the direct
    /// websites, and the formatter URLs of the identifier pairs resolved
    /// against the loaded property entities.
    pub fn collect_targets(
        &self,
        plan: &FetchPlan,
        listings: &Vec<Vec<String>>,
        loaded: &Vec<Entity>,
    ) -> (r: Vec<FetchTarget>)
        ensures
            r@.map_values(|t: FetchTarget| t@) == spec_collect_targets(
                listings@.map_values(
                    |l: Vec<String>| l@.map_values(|s: String| s@),
                ),
                plan.direct_urls@.map_values(|s: String| s@),
                plan.external_pairs@.map_values(|q: (String, String)| (q.0@, q.1@)),
                entities_view(loaded@),
            ),
    {
        let ghost lv = listings@.map_values(|l: Vec<String>| l@.map_values(|s: String| s@));
        let ghost ev = entities_view(loaded@);
        let mut out: Vec<FetchTarget> = Vec::new();
        // wiki listings
        let nl = listings.len();
        let mut i: usize = 0;
        proof {
            assert(lv.skip(0) =~= lv);
            assert(out@.map_values(|t: FetchTarget| t@) =~= Seq::<FetchTargetV>::empty());
            assert(Seq::<FetchTargetV>::empty() + spec_wiki_targets(lv)
                =~= spec_wiki_targets(lv));
        }
        while i < nl
            invariant
                nl == lv.len(),
                lv == listings@.map_values(
                    |l: Vec<String>| l@.map_values(|s: String| s@),
                ),
                nl == listings@.len(),
                i <= nl,
                spec_wiki_targets(lv) == out@.map_values(|t: FetchTarget| t@)
                    + spec_wiki_targets(lv.skip(i as int)),
            decreases nl - i,
        {
            let ghost pre = out@;
            let ghost rest = lv.skip(i as int);
            assert(rest[0] == lv[i as int]);
            assert(lv[i as int] == listings@[i as int]@.map_values(|s: String| s@));
            let selected = select_external_links(&listings[i]);
            let ghost selv = selected@.map_values(|s: String| s@);
            let m = selected.len();
            let mut j: usize = 0;
            proof {
                assert(pre.map_values(|t: FetchTarget| t@) + Seq::<FetchTargetV>::empty()
                    =~= pre.map_values(|t: FetchTarget| t@));
                assert(selv.take(0) =~= Seq::<Seq<char>>::empty());
                assert(selv.take(0).map_values(
                    |u: Seq<char>| FetchTargetV {
                        url: u,
                        url_type: UrlType::WikiExternal,
                        property: Option::None,
                        external_id: Option::None,
                    },
                ) =~= Seq::<FetchTargetV>::empty());
            }
            while j < m
                invariant
                    m == selv.len(),
                    selv == selected@.map_values(|s: String| s@),
                    m == selected@.len(),
                    j <= m,
                    out@.map_values(|t: FetchTarget| t@) == pre.map_values(
                        |t: FetchTarget| t@,
                    ) + selv.take(j as int).map_values(
                        |u: Seq<char>| FetchTargetV {
                            url: u,
                            url_type: UrlType::WikiExternal,
                            property: Option::None,
                            external_id: Option::None,
                        },
                    ),
                decreases m - j,
            {
                let ghost opre = out@;
                assert(selv[j as int] == selected@[j as int]@);
                let t = FetchTarget {
                    url: selected[j].clone(),
                    url_type: UrlType::WikiExternal,
                    property: Option::None,
                    external_id: Option::None,
                };
                proof {
                    assert(t@ =~~= (FetchTargetV {
                        url: selv[j as int],
                        url_type: UrlType::WikiExternal,
                        property: Option::None,
                        external_id: Option::None,
                    }));
                }
                out.push(t);
                j += 1;
                proof {
                    assert(out@ =~= opre.push(t));
                    assert(selv.take(j as int) =~= selv.take(j - 1).push(selv[j - 1]));
                    assert(out@.map_values(|q: FetchTarget| q@) =~= opre.map_values(
                        |q: FetchTarget| q@,
                    ) + seq![t@]);
                    assert(out@.map_values(|q: FetchTarget| q@) =~= pre.map_values(
                        |q: FetchTarget| q@,
                    ) + selv.take(j as int).map_values(
                        |u: Seq<char>| FetchTargetV {
                            url: u,
                            url_type: UrlType::WikiExternal,
                            property: Option::None,
                            external_id: Option::None,
                        },
                    ));
                }
            }
            i += 1;
            proof {
                assert(selv.take(m as int) =~= selv);
                assert(rest.skip(1) =~= lv.skip(i as int));
                let tail = spec_wiki_targets(lv.skip(i as int));
                assert(spec_wiki_targets(rest) == spec_select_links(rest[0]).map_values(
                    |u: Seq<char>| FetchTargetV {
                        url: u,
                        url_type: UrlType::WikiExternal,
                        property: Option::None,
                        external_id: Option::None,
                    },
                ) + tail);
                assert(pre.map_values(|q: FetchTarget| q@) + (spec_select_links(
                    rest[0],
                ).map_values(
                    |u: Seq<char>| FetchTargetV {
                        url: u,
                        url_type: UrlType::WikiExternal,
                        property: Option::None,
                        external_id: Option::None,
                    },
                ) + tail) =~= out@.map_values(|q: FetchTarget| q@) + tail);
            }
        }
        proof {
            assert(lv.skip(nl as int) =~= Seq::<Seq<Seq<char>>>::empty());
            assert(out@.map_values(|q: FetchTarget| q@) + Seq::<FetchTargetV>::empty()
                =~= out@.map_values(|q: FetchTarget| q@));
        }
        let ghost wiki_part = out@.map_values(|q: FetchTarget| q@);
        // direct websites
        let nd = plan.direct_urls.len();
        let ghost dv = plan.direct_urls@.map_values(|s: String| s@);
        let mut d: usize = 0;
        proof {
            assert(dv.take(0).map_values(
                |u: Seq<char>| FetchTargetV {
                    url: u,
                    url_type: UrlType::DirectWebsite,
                    property: Option::None,
                    external_id: Option::None,
                },
            ) =~= Seq::<FetchTargetV>::empty());
            assert(wiki_part + Seq::<FetchTargetV>::empty() =~= wiki_part);
        }
        while d < nd
            invariant
                nd == dv.len(),
                dv == plan.direct_urls@.map_values(|s: String| s@),
                nd == plan.direct_urls@.len(),
                d <= nd,
                out@.map_values(|q: FetchTarget| q@) == wiki_part + dv.take(
                    d as int,
                ).map_values(
                    |u: Seq<char>| FetchTargetV {
                        url: u,
                        url_type: UrlType::DirectWebsite,
                        property: Option::None,
                        external_id: Option::None,
                    },
                ),
            decreases nd - d,
        {
            let ghost opre = out@;
            assert(dv[d as int] == plan.direct_urls@[d as int]@);
            let t = FetchTarget {
                url: plan.direct_urls[d].clone(),
                url_type: UrlType::DirectWebsite,
                property: Option::None,
                external_id: Option::None,
            };
            proof {
                assert(t@ =~~= (FetchTargetV {
                    url: dv[d as int],
                    url_type: UrlType::DirectWebsite,
                    property: Option::None,
                    external_id: Option::None,
                }));
            }
            out.push(t);
            d += 1;
            proof {
                assert(out@ =~= opre.push(t));
                assert(dv.take(d as int) =~= dv.take(d - 1).push(dv[d - 1]));
                assert(out@.map_values(|q: FetchTarget| q@) =~= opre.map_values(
                    |q: FetchTarget| q@,
                ) + seq![t@]);
                assert(out@.map_values(|q: FetchTarget| q@) =~= wiki_part + dv.take(
                    d as int,
                ).map_values(
                    |u: Seq<char>| FetchTargetV {
                        url: u,
                        url_type: UrlType::DirectWebsite,
                        property: Option::None,
                        external_id: Option::None,
                    },
                ));
            }
        }
        proof {
            assert(dv.take(nd as int) =~= dv);
        }
        let ghost direct_part = out@.map_values(|q: FetchTarget| q@);
        // formatter URLs
        let np = plan.external_pairs.len();
        let ghost pv = plan.external_pairs@.map_values(|q: (String, String)| (q.0@, q.1@));
        let mut used: Vec<String> = Vec::new();
        let ghost mut ext_acc = Seq::<FetchTargetV>::empty();
        let mut p: usize = 0;
        proof {
            reveal_strlit("$1");
            assert(pv.skip(0) =~= pv);
            assert(used@.map_values(|s: String| s@) =~= Seq::<Seq<char>>::empty());
            assert(ext_acc + spec_ext_targets(pv, ev, Seq::<Seq<char>>::empty())
                =~= spec_ext_targets(pv, ev, Seq::<Seq<char>>::empty()));
            assert(out@.map_values(|q: FetchTarget| q@) =~= direct_part + ext_acc);
        }
        while p < np
            invariant
                np == pv.len(),
                pv == plan.external_pairs@.map_values(|q: (String, String)| (q.0@, q.1@)),
                np == plan.external_pairs@.len(),
                p <= np,
                ev == entities_view(loaded@),
                out@.map_values(|q: FetchTarget| q@) == direct_part + ext_acc,
                spec_ext_targets(pv, ev, Seq::<Seq<char>>::empty()) == ext_acc
                    + spec_ext_targets(pv.skip(p as int), ev, used@.map_values(|s: String| s@)),
            decreases np - p,
        {
            proof {
                reveal_strlit("$1");
            }
            let ghost opre = out@;
            let ghost upre = used@.map_values(|s: String| s@);
            let ghost rest = pv.skip(p as int);
            assert(rest[0] == pv[p as int]);
            assert(pv[p as int] == (plan.external_pairs@[p as int].0@, plan.external_pairs@[p as int].1@));
            let pair = &plan.external_pairs[p];
            match crate::model::find_entity(loaded, pair.0.as_str()) {
                Option::Some(pe) => {
                    proof {
                        assert(spec_lookup(ev, rest[0].0) == Option::Some(pe@));
                    }
                    let fms = pe.string_values_for_property("P1630");
                    let ghost fmv = spec_string_values(pe@.claims, "P1630"@);
                    if fms.len() > 0 {
                        proof {
                            assert(fms@.map_values(|s: String| s@).len() == fms@.len());
                            assert(fms@.map_values(|s: String| s@)[0] == fms@[0 as int]@);
                        }
                        let fv = crate::strutil::chars_of(fms[0].as_str());
                        let dollar = crate::strutil::chars_of("$1");
                        let idv = crate::strutil::chars_of(pair.1.as_str());
                        let uv = crate::strutil::replace_sub(
                            fv.as_slice(),
                            dollar.as_slice(),
                            idv.as_slice(),
                        );
                        let url = string_of(uv.as_slice());
                        proof {
                            assert(url@ == replaced(fmv[0], "$1"@, rest[0].1));
                        }
                        if !contains_string(&used, &url) {
                            let t = FetchTarget {
                                url: url.clone(),
                                url_type: UrlType::ExternalId,
                                property: Option::Some(pair.0.clone()),
                                external_id: Option::Some(pair.1.clone()),
                            };
                            proof {
                                assert(t@ =~~= (FetchTargetV {
                                    url: url@,
                                    url_type: UrlType::ExternalId,
                                    property: Option::Some(rest[0].0),
                                    external_id: Option::Some(rest[0].1),
                                }));
                            }
                            out.push(t);
                            used.push(url);
                            proof {
                                assert(out@ =~= opre.push(t));
                                assert(used@.map_values(|s: String| s@) =~= upre.push(t@.url));
                                assert(spec_ext_targets(rest, ev, upre) == seq![t@]
                                    + spec_ext_targets(rest.skip(1), ev, upre.push(t@.url)));
                                assert(out@.map_values(|q: FetchTarget| q@) =~= opre.map_values(
                                    |q: FetchTarget| q@,
                                ) + seq![t@]);
                                ext_acc = ext_acc + seq![t@];
                                assert(out@.map_values(|q: FetchTarget| q@) =~= direct_part
                                    + ext_acc);
                                assert(ext_acc + spec_ext_targets(rest.skip(1), ev, upre.push(
                                    t@.url,
                                )) =~= (ext_acc.drop_last() + (seq![t@] + spec_ext_targets(
                                    rest.skip(1),
                                    ev,
                                    upre.push(t@.url),
                                ))));
                            }
                        } else {
                            proof {
                                assert(upre.contains(url@));
                                assert(spec_ext_targets(rest, ev, upre) == spec_ext_targets(
                                    rest.skip(1),
                                    ev,
                                    upre,
                                ));
                            }
                        }
                    } else {
                        proof {
                            assert(fmv.len() == 0);
                            assert(spec_ext_targets(rest, ev, upre) == spec_ext_targets(
                                rest.skip(1),
                                ev,
                                upre,
                            ));
                        }
                    }
                },
                Option::None => {
                    proof {
                        assert(spec_lookup(ev, rest[0].0) is None);
                        assert(spec_ext_targets(rest, ev, upre) == spec_ext_targets(
                            rest.skip(1),
                            ev,
                            upre,
                        ));
                    }
                },
            }
            p += 1;
            proof {
                assert(rest.skip(1) =~= pv.skip(p as int));
            }
        }
        proof {
            assert(pv.skip(np as int) =~= Seq::<(Seq<char>, Seq<char>)>::empty());
            assert(spec_ext_targets(
                pv.skip(np as int),
                ev,
                used@.map_values(|s: String| s@),
            ) =~= Seq::<FetchTargetV>::empty());
            assert(ext_acc + Seq::<FetchTargetV>::empty() =~= ext_acc);
            assert(out@.map_values(|q: FetchTarget| q@) =~= spec_collect_targets(
                lv,
                plan.direct_urls@.map_values(|s: String| s@),
                pv,
                ev,
            ));
        }
        out
    }

    /// The final stage: the fetched documents become the candidate pool
    /// (failed fetches dropped, stated-in values attached), every statement
    /// is matched against every candidate, records for the described-at-URL
    /// property are dropped, and the rest is merged.
    pub fn finish(
        &self,
        statements: &Vec<EntityStatement>,
        docs: &Vec<FetchedDoc>,
        loaded: &Vec<Entity>,
    ) -> (r: Vec<ConciseUrlCandidate>)
        requires
            self.wf(),
        ensures
            cand_views(r@) == spec_finish(
                statements@.map_values(|s: EntityStatement| s@),
                docs@.map_values(|d: FetchedDoc| d@),
                entities_view(loaded@),
            ),
    {
        let ghost sv = statements@.map_values(|s: EntityStatement| s@);
        let ghost dv = docs@.map_values(|d: FetchedDoc| d@);
        let ghost ev = entities_view(loaded@);
        // build the candidate pool
        let nd = docs.len();
        let mut pool: Vec<UrlCandidate> = Vec::new();
        proof {
            assert(pool@.map_values(|u: UrlCandidate| u@) =~= spec_build_candidates(
                dv.take(0),
            ));
        }
        let mut i: usize = 0;
        while i < nd
            invariant
                nd == dv.len(),
                dv == docs@.map_values(|d: FetchedDoc| d@),
                nd == docs@.len(),
                i <= nd,
                pool@.map_values(|u: UrlCandidate| u@) == spec_build_candidates(
                    dv.take(i as int),
                ),
            decreases nd - i,
        {
            let ghost pre = pool@;
            assert(dv[i as int] == docs@[i as int]@);
            let doc = &docs[i];
            if doc.html.as_str().unicode_len() > 0 {
                let text = html2text(doc.html.as_str());
                let language = guess_page_language_from_text(text.as_str());
                let c = UrlCandidate {
                    url: doc.target.url.clone(),
                    url_type: match doc.target.url_type {
                        UrlType::WikiExternal => UrlType::WikiExternal,
                        UrlType::ExternalId => UrlType::ExternalId,
                        UrlType::DirectWebsite => UrlType::DirectWebsite,
                    },
                    property: crate::model::clone_opt_string(&doc.target.property),
                    external_id: crate::model::clone_opt_string(&doc.target.external_id),
                    stated_in: Option::None,
                    language,
                    text,
                };
                proof {
                    assert(c@ =~~= spec_candidate_of(dv[i as int]));
                }
                upsert_candidate(&mut pool, c);
            }
            i += 1;
            proof {
                let t = dv.take(i as int);
                assert(t.drop_last() =~= dv.take(i - 1));
                assert(t.last() == dv[i - 1]);
                assert(pool@.map_values(|u: UrlCandidate| u@) =~= spec_build_candidates(t));
            }
        }
        proof {
            assert(dv.take(nd as int) =~= dv);
        }
        // attach stated-in values
        let ghost raw_pool = pool@.map_values(|u: UrlCandidate| u@);
        let npool = pool.len();
        let mut cands: Vec<UrlCandidate> = Vec::new();
        proof {
            assert(cands@.map_values(|u: UrlCandidate| u@) =~= raw_pool.take(0).map_values(
                |c: UrlCandidateV| spec_with_stated_in(c, ev),
            ));
        }
        let mut j: usize = 0;
        while j < npool
            invariant
                npool == raw_pool.len(),
                raw_pool == pool@.map_values(|u: UrlCandidate| u@),
                npool == pool@.len(),
                j <= npool,
                ev == entities_view(loaded@),
                cands@.map_values(|u: UrlCandidate| u@) == raw_pool.take(
                    j as int,
                ).map_values(|c: UrlCandidateV| spec_with_stated_in(c, ev)),
            decreases npool - j,
        {
            let ghost pre = cands@;
            assert(raw_pool[j as int] == pool@[j as int]@);
            let c = &pool[j];
            let mut nc = crate::candidates::clone_url_candidate(c);
            match &c.property {
                Option::Some(prop) => {
                    match crate::model::find_entity(loaded, prop.as_str()) {
                        Option::Some(pe) => {
                            match pe.first_claim_entity_value("P9073") {
                                Option::Some(si) => {
                                    nc.stated_in = Option::Some(si);
                                },
                                Option::None => {},
                            }
                        },
                        Option::None => {},
                    }
                },
                Option::None => {},
            }
            proof {
                assert(nc@ =~~= spec_with_stated_in(raw_pool[j as int], ev));
            }
            cands.push(nc);
            j += 1;
            proof {
                assert(cands@ =~= pre.push(nc));
                assert(cands@.map_values(|u: UrlCandidate| u@) =~= pre.map_values(
                    |u: UrlCandidate| u@,
                ) + seq![nc@]);
                assert(raw_pool.take(j as int) =~= raw_pool.take(j - 1).push(
                    raw_pool[j - 1],
                ));
                assert(raw_pool.take(j as int).map_values(
                    |c2: UrlCandidateV| spec_with_stated_in(c2, ev),
                ) =~= raw_pool.take(j - 1).map_values(
                    |c2: UrlCandidateV| spec_with_stated_in(c2, ev),
                ) + seq![spec_with_stated_in(raw_pool[j - 1], ev)]);
                assert(cands@.map_values(|u: UrlCandidate| u@) =~= raw_pool.take(
                    j as int,
                ).map_values(|c2: UrlCandidateV| spec_with_stated_in(c2, ev)));
            }
        }
        proof {
            assert(raw_pool.take(npool as int) =~= raw_pool);
        }
        let ghost cv = cands@.map_values(|u: UrlCandidate| u@);
        // leave out statements for the described-at-URL property
        let nall = statements.len();
        let mut matchable: Vec<EntityStatement> = Vec::new();
        let p973s = "P973".to_owned();
        proof {
            assert(sv.skip(0) =~= sv);
            assert(matchable@.map_values(|s: EntityStatement| s@)
                =~= Seq::<EntityStatementV>::empty());
            assert(Seq::<EntityStatementV>::empty() + spec_matchable_statements(sv)
                =~= spec_matchable_statements(sv));
        }
        let mut a: usize = 0;
        while a < nall
            invariant
                nall == sv.len(),
                sv == statements@.map_values(|s: EntityStatement| s@),
                nall == statements@.len(),
                a <= nall,
                p973s@ == "P973"@,
                spec_matchable_statements(sv) == matchable@.map_values(
                    |s: EntityStatement| s@,
                ) + spec_matchable_statements(sv.skip(a as int)),
            decreases nall - a,
        {
            let ghost pre = matchable@;
            let ghost rest = sv.skip(a as int);
            assert(rest[0] == sv[a as int]);
            assert(sv[a as int] == statements@[a as int]@);
            if !statements[a].property.eq(&p973s) {
                let sc = crate::model::clone_entity_statement(&statements[a]);
                matchable.push(sc);
                proof {
                    assert(matchable@.map_values(|s: EntityStatement| s@)
                        =~= pre.map_values(|s: EntityStatement| s@) + seq![rest[0]]);
                }
            }
            a += 1;
            proof {
                assert(rest.skip(1) =~= sv.skip(a as int));
                let tail = spec_matchable_statements(sv.skip(a as int));
                let head = if rest[0].property == "P973"@ {
                    Seq::<EntityStatementV>::empty()
                } else {
                    seq![rest[0]]
                };
                assert(spec_matchable_statements(rest) == head + tail);
                assert(pre.map_values(|s: EntityStatement| s@) + (head + tail)
                    =~= matchable@.map_values(|s: EntityStatement| s@) + tail);
            }
        }
        proof {
            assert(sv.skip(nall as int) =~= Seq::<EntityStatementV>::empty());
            assert(matchable@.map_values(|s: EntityStatement| s@) + Seq::<
                EntityStatementV,
            >::empty() =~= matchable@.map_values(|s: EntityStatement| s@));
        }
        let ghost msv = matchable@.map_values(|s: EntityStatement| s@);
        // match every statement against the pool
        let ns = matchable.len();
        let mut records: Vec<ConciseUrlCandidate> = Vec::new();
        proof {
            assert(msv.skip(0) =~= msv);
            assert(cand_views(records@) =~= Seq::<ConciseUrlCandidateV>::empty());
            assert(Seq::<ConciseUrlCandidateV>::empty() + spec_all_records(msv, cv, ev)
                =~= spec_all_records(msv, cv, ev));
        }
        let mut k: usize = 0;
        while k < ns
            invariant
                self.wf(),
                ns == msv.len(),
                msv == matchable@.map_values(|s: EntityStatement| s@),
                ns == matchable@.len(),
                cv == cands@.map_values(|u: UrlCandidate| u@),
                ev == entities_view(loaded@),
                k <= ns,
                spec_all_records(msv, cv, ev) == cand_views(records@) + spec_all_records(
                    msv.skip(k as int),
                    cv,
                    ev,
                ),
            decreases ns - k,
        {
            let ghost pre = records@;
            let ghost rest = msv.skip(k as int);
            assert(rest[0] == msv[k as int]);
            assert(msv[k as int] == matchable@[k as int]@);
            let mut found = self.process_statement(&matchable[k], &cands, loaded);
            let ghost fv = found@.map_values(|c: ConciseUrlCandidate| c@);
            records.append(&mut found);
            k += 1;
            proof {
                assert(rest.skip(1) =~= msv.skip(k as int));
                assert(cand_views(records@) =~= cand_views(pre) + fv);
                let tail = spec_all_records(msv.skip(k as int), cv, ev);
                assert(spec_all_records(rest, cv, ev) == spec_process_statement(
                    rest[0],
                    cv,
                    ev,
                ) + tail);
                assert(cand_views(pre) + (spec_process_statement(rest[0], cv, ev) + tail)
                    =~= cand_views(records@) + tail);
            }
        }
        proof {
            assert(msv.skip(ns as int) =~= Seq::<EntityStatementV>::empty());
            assert(cand_views(records@) + Seq::<ConciseUrlCandidateV>::empty()
                =~= cand_views(records@));
        }
        // drop records for the described-at-URL property
        let ghost rv = cand_views(records@);
        let nr = records.len();
        let mut kept: Vec<ConciseUrlCandidate> = Vec::new();
        let p973 = "P973".to_owned();
        proof {
            assert(rv.skip(0) =~= rv);
            assert(cand_views(kept@) =~= Seq::<ConciseUrlCandidateV>::empty());
            assert(Seq::<ConciseUrlCandidateV>::empty() + spec_drop_described(rv)
                =~= spec_drop_described(rv));
        }
        let mut q: usize = 0;
        while q < nr
            invariant
                nr == rv.len(),
                rv == cand_views(records@),
                nr == records@.len(),
                q <= nr,
                p973@ == "P973"@,
                spec_drop_described(rv) == cand_views(kept@) + spec_drop_described(
                    rv.skip(q as int),
                ),
            decreases nr - q,
        {
            let ghost pre = kept@;
            let ghost rest = rv.skip(q as int);
            assert(rest[0] == rv[q as int]);
            assert(rv[q as int] == records@[q as int]@);
            let c = &records[q];
            let is_described = match &c.property {
                Option::Some(pp) => pp.eq(&p973),
                Option::None => false,
            };
            if !is_described {
                let cc = crate::candidates::clone_candidate(c);
                kept.push(cc);
                proof {
                    assert(cand_views(kept@) =~= cand_views(pre) + seq![rest[0]]);
                }
            } else {
                proof {
                    assert(rest[0].property == Option::Some("P973"@));
                }
            }
            q += 1;
            proof {
                assert(rest.skip(1) =~= rv.skip(q as int));
                let tail = spec_drop_described(rv.skip(q as int));
                let head = if rest[0].property == Option::Some("P973"@) {
                    Seq::<ConciseUrlCandidateV>::empty()
                } else {
                    seq![rest[0]]
                };
                assert(spec_drop_described(rest) == head + tail);
                assert(cand_views(pre) + (head + tail) =~= cand_views(kept@) + tail);
            }
        }
        proof {
            assert(rv.skip(nr as int) =~= Seq::<ConciseUrlCandidateV>::empty());
            assert(cand_views(kept@) + Seq::<ConciseUrlCandidateV>::empty() =~= cand_views(
                kept@,
            ));
        }
        merge_cuc_candidates(&kept)
    }
}

/// Taking one more statement extends the linked ids by that statement's
/// contribution.
proof fn lemma_linked_ids_step(sv: Seq<EntityStatementV>, j: int)
    requires
        0 < j <= sv.len(),
    ensures
        spec_linked_ids(sv.take(j)) == spec_linked_ids(sv.take(j - 1)) + (
        match sv[j - 1].claim.main.value {
            Option::Some(DataValueV::EntityId(id)) => seq![id],
            _ => Seq::<Seq<char>>::empty(),
        }),
    decreases j,
{
    if j == 1 {
        assert(sv.take(1)[0] == sv[0]);
        assert(sv.take(1).skip(1) =~= Seq::<EntityStatementV>::empty());
        assert(sv.take(0) =~= Seq::<EntityStatementV>::empty());
        let head = match sv[0].claim.main.value {
            Option::Some(DataValueV::EntityId(id)) => seq![id],
            _ => Seq::<Seq<char>>::empty(),
        };
        assert(spec_linked_ids(sv.take(1)) == head + spec_linked_ids(sv.take(1).skip(1)));
        assert(spec_linked_ids(sv.take(1)) =~= spec_linked_ids(sv.take(0)) + head);
    } else {
        lemma_linked_ids_step(sv.skip(1), j - 1);
        assert(sv.take(j)[0] == sv[0]);
        assert(sv.take(j).skip(1) =~= sv.skip(1).take(j - 1));
        assert(sv.take(j - 1)[0] == sv[0]);
        assert(sv.take(j - 1).skip(1) =~= sv.skip(1).take(j - 2));
        assert(sv.skip(1)[j - 2] == sv[j - 1]);
        let head0 = match sv[0].claim.main.value {
            Option::Some(DataValueV::EntityId(id)) => seq![id],
            _ => Seq::<Seq<char>>::empty(),
        };
        let tail_new = match sv[j - 1].claim.main.value {
            Option::Some(DataValueV::EntityId(id)) => seq![id],
            _ => Seq::<Seq<char>>::empty(),
        };
        assert(spec_linked_ids(sv.take(j)) == head0 + spec_linked_ids(sv.skip(1).take(j - 1)));
        assert(spec_linked_ids(sv.take(j - 1)) == head0 + spec_linked_ids(
            sv.skip(1).take(j - 2),
        ));
        assert(head0 + (spec_linked_ids(sv.skip(1).take(j - 2)) + tail_new) =~= (head0
            + spec_linked_ids(sv.skip(1).take(j - 2))) + tail_new);
    }
}

} // verus!
