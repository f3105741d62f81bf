//! The existing-reference check: whether a statement already cites a
//! candidate, either by its URL or, for external-identifier candidates, by
//! the identifier's property/value pair.

use vstd::prelude::*;

use crate::candidates::{UrlCandidate, UrlCandidateV, UrlType};
use crate::model::{DataValue, DataValueV, EntityStatement, SnakV, StatementV};
use crate::referee::Referee;

verus! {

/// Whether a reference snak states the source URL: property `P854` with the
/// given string value.
pub open spec fn snak_states_url(sn: SnakV, url: Seq<char>) -> bool {
    sn.property == "P854"@ && match sn.value {
        Option::Some(DataValueV::StringValue(s)) => s == url,
        _ => false,
    }
}

/// Whether a reference snak states the given property with the given string
/// value.
pub open spec fn snak_states_value(sn: SnakV, p: Seq<char>, v: Seq<char>) -> bool {
    sn.property == p && match sn.value {
        Option::Some(DataValueV::StringValue(s)) => s == v,
        _ => false,
    }
}

/// Whether one reference group already covers the candidate: it states the
/// candidate's URL, or, for an external-identifier candidate, the
/// identifier's property and value.
pub open spec fn group_covers(g: Seq<SnakV>, uc: UrlCandidateV) -> bool {
    ||| exists|i: int| 0 <= i < g.len() && snak_states_url(#[trigger] g[i], uc.url)
    ||| (uc.url_type is ExternalId && match (uc.property, uc.external_id) {
        (Option::Some(p), Option::Some(v)) => exists|i: int|
            0 <= i < g.len() && snak_states_value(#[trigger] g[i], p, v),
        _ => false,
    })
}

/// Whether some existing reference of the statement covers the candidate.
pub open spec fn spec_has_reference(st: StatementV, uc: UrlCandidateV) -> bool {
    exists|r: int| 0 <= r < st.references.len() && group_covers(#[trigger] st.references[r], uc)
}

/// Whether one reference group covers the candidate (executable).
fn group_covers_exec(g: &Vec<crate::model::Snak>, uc: &UrlCandidate) -> (r: bool)
    ensures
        r == group_covers(g@.map_values(|s: crate::model::Snak| s@), uc@),
{
    let ghost gv = g@.map_values(|s: crate::model::Snak| s@);
    let n = g.len();
    let p854 = "P854".to_owned();
    let mut i: usize = 0;
    while i < n
        invariant
            n == gv.len(),
            gv == g@.map_values(|s: crate::model::Snak| s@),
            n == g@.len(),
            i <= n,
            p854@ == "P854"@,
            forall|k: int| 0 <= k < i ==> !snak_states_url(#[trigger] gv[k], uc@.url),
        decreases n - i,
    {
        assert(gv[i as int] == g@[i as int]@);
        let sn = &g[i];
        if sn.property.eq(&p854) {
            match &sn.value {
                Option::Some(DataValue::StringValue(s)) => {
                    if s.eq(&uc.url) {
                        assert(snak_states_url(gv[i as int], uc@.url));
                        return true;
                    }
                },
                _ => {},
            }
        }
        proof {
            assert(!snak_states_url(gv[i as int], uc@.url));
        }
        i += 1;
    }
    let is_ext = match uc.url_type {
        UrlType::ExternalId => true,
        _ => false,
    };
    if is_ext {
        match (&uc.property, &uc.external_id) {
            (Option::Some(p), Option::Some(v)) => {
                let mut j: usize = 0;
                while j < n
                    invariant
                        n == gv.len(),
                        gv == g@.map_values(|s: crate::model::Snak| s@),
                        n == g@.len(),
                        j <= n,
                        uc@.url_type is ExternalId,
                        uc@.property == Option::Some(p@),
                        uc@.external_id == Option::Some(v@),
                        forall|k: int| 0 <= k < j ==> !snak_states_value(
                            #[trigger] gv[k],
                            p@,
                            v@,
                        ),
                        forall|k: int| 0 <= k < n ==> !snak_states_url(
                            #[trigger] gv[k],
                            uc@.url,
                        ),
                    decreases n - j,
                {
                    assert(gv[j as int] == g@[j as int]@);
                    let sn = &g[j];
                    if sn.property.eq(p) {
                        match &sn.value {
                            Option::Some(DataValue::StringValue(s)) => {
                                if s.eq(v) {
                                    assert(snak_states_value(gv[j as int], p@, v@));
                                    return true;
                                }
                            },
                            _ => {},
                        }
                    }
                    proof {
                        assert(!snak_states_value(gv[j as int], p@, v@));
                    }
                    j += 1;
                }
                false
            },
            _ => false,
        }
    } else {
        false
    }
}

impl Referee {
    /// Whether the statement's existing references already cover this
    /// candidate: some reference states the candidate's URL, or, for an
    /// external-identifier candidate, the identifier's property and value.
    pub fn does_statement_have_this_reference(
        &self,
        statement: &EntityStatement,
        url_candidate: &UrlCandidate,
    ) -> (r: bool)
        ensures
            r == spec_has_reference(statement@.claim, url_candidate@),
    {
        let claim = &statement.claim;
        let n = claim.references.len();
        let ghost rv = statement@.claim.references;
        let mut i: usize = 0;
        while i < n
            invariant
                n == rv.len(),
                rv == statement@.claim.references,
                n == claim.references@.len(),
                claim == &statement.claim,
                i <= n,
                forall|k: int| 0 <= k < i ==> !group_covers(
                    #[trigger] rv[k],
                    url_candidate@,
                ),
            decreases n - i,
        {
            assert(rv[i as int] == claim.references@[i as int].snaks@.map_values(
                |s: crate::model::Snak| s@,
            ));
            if group_covers_exec(&claim.references[i].snaks, url_candidate) {
                assert(group_covers(rv[i as int], url_candidate@));
                return true;
            }
            i += 1;
        }
        false
    }
}

} // verus!
