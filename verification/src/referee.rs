//! The referee: configuration and statement selection.
//!
//! This module holds the fixed rule tables of the pipeline (properties that
//! never take references, entity-type markers that make an entity
//! unsupported, host fragments that are never fetched) and selects the
//! statements of an entity that are worth looking for references for.

use vstd::prelude::*;

use crate::model::{
    Datatype, Entity, EntityStatement, EntityStatementV, EntityV, StatementV,
};
use crate::strutil::{
    chars_of, contains_string, contains_sub, has_sub, replace_sub, replaced, string_of,
    to_upper, trim_chars, trimmed,
};

verus! {

/// Properties whose statements never take references (identity-establishing
/// properties such as taxon name or category links).
pub open spec fn no_ref_properties() -> Seq<Seq<char>> {
    seq!["P225"@, "P373"@, "P1472"@, "P1889"@]
}

/// Whether a URL may be fetched: none of the denylisted host fragments
/// (self-referential or access-restricted services) occurs in it.
pub open spec fn url_allowed(url: Seq<char>) -> bool {
    &&& !contains_sub(url, "://g.co/"@)
    &&& !contains_sub(url, "viaf.org/"@)
    &&& !contains_sub(url, "wmflabs.org"@)
    &&& !contains_sub(url, "www.google.com"@)
    &&& !contains_sub(url, "toolforge.org"@)
}

/// Whether some claim of `e` asserts property `p` with linked entity `t`.
pub open spec fn marker_asserted(e: EntityV, p: Seq<char>, t: Seq<char>) -> bool {
    exists|i: int|
        0 <= i < e.claims.len() && crate::model::is_entity_claim(
            #[trigger] e.claims[i],
            p,
            t,
        )
}

/// Whether an entity is of a supported type: it carries none of the
/// instance-of markers for scholarly article, taxon, category,
/// disambiguation page or main page.
pub open spec fn spec_supported(e: EntityV) -> bool {
    &&& !marker_asserted(e, "P31"@, "Q13442814"@)
    &&& !marker_asserted(e, "P31"@, "Q16521"@)
    &&& !marker_asserted(e, "P31"@, "Q4167836"@)
    &&& !marker_asserted(e, "P31"@, "Q4167410"@)
    &&& !marker_asserted(e, "P31"@, "Q5296"@)
}

/// Whether a claim is eligible for reference discovery: its property is not
/// reference-exempt and its value is neither an external identifier nor a
/// media file.
pub open spec fn eligible_claim(c: StatementV) -> bool {
    &&& !no_ref_properties().contains(c.main.property)
    &&& !(c.main.datatype is ExternalId)
    &&& !(c.main.datatype is CommonsMedia)
}

/// The view of the selected statement built from claim `c` of entity `eid`.
pub open spec fn entity_statement_of(eid: Seq<char>, c: StatementV) -> EntityStatementV {
    EntityStatementV {
        entity: eid,
        property: c.main.property,
        id: match c.id {
            Option::Some(s) => s,
            Option::None => Seq::<char>::empty(),
        },
        claim: c,
    }
}

/// The eligible statements of `claims`, in claim order.
pub open spec fn spec_eligible_statements(claims: Seq<StatementV>, eid: Seq<char>) -> Seq<
    EntityStatementV,
>
    decreases claims.len(),
{
    if claims.len() == 0 {
        Seq::<EntityStatementV>::empty()
    } else {
        let head = if eligible_claim(claims[0]) {
            seq![entity_statement_of(eid, claims[0])]
        } else {
            Seq::<EntityStatementV>::empty()
        };
        head + spec_eligible_statements(claims.skip(1), eid)
    }
}

/// The reference-discovery engine's configuration.
pub struct Referee {
    pub no_refs_for_properties: Vec<String>,
}

impl Referee {
    /// The configuration table holds exactly the reference-exempt properties.
    pub open spec fn wf(&self) -> bool {
        self.no_refs_for_properties@.map_values(|s: String| s@) == no_ref_properties()
    }

    /// Build the engine with its fixed rule table.
    pub fn new() -> (r: Referee)
        ensures
            r.wf(),
    {
        let mut no_refs: Vec<String> = Vec::new();
        no_refs.push("P225".to_owned());
        no_refs.push("P373".to_owned());
        no_refs.push("P1472".to_owned());
        no_refs.push("P1889".to_owned());
        let r = Referee { no_refs_for_properties: no_refs };
        proof {
            assert(r.no_refs_for_properties@.map_values(|s: String| s@)
                =~= no_ref_properties());
        }
        r
    }

    /// Whether `url` passes the fetch denylist.
    pub fn validate_url(&self, url: &str) -> (r: bool)
        ensures
            r == url_allowed(url@),
    {
        let uc = chars_of(url);
        let f1 = chars_of("://g.co/");
        if has_sub(uc.as_slice(), f1.as_slice()) {
            return false;
        }
        let f2 = chars_of("viaf.org/");
        if has_sub(uc.as_slice(), f2.as_slice()) {
            return false;
        }
        let f3 = chars_of("wmflabs.org");
        if has_sub(uc.as_slice(), f3.as_slice()) {
            return false;
        }
        let f4 = chars_of("www.google.com");
        if has_sub(uc.as_slice(), f4.as_slice()) {
            return false;
        }
        let f5 = chars_of("toolforge.org");
        if has_sub(uc.as_slice(), f5.as_slice()) {
            return false;
        }
        true
    }

    /// Whether an entity is of a supported type.
    pub fn is_supported_entity(&self, entity: &Entity) -> (r: bool)
        ensures
            r == spec_supported(entity@),
    {
        if entity.has_target_entity("P31", "Q13442814") {
            return false;
        }
        if entity.has_target_entity("P31", "Q16521") {
            return false;
        }
        if entity.has_target_entity("P31", "Q4167836") {
            return false;
        }
        if entity.has_target_entity("P31", "Q4167410") {
            return false;
        }
        if entity.has_target_entity("P31", "Q5296") {
            return false;
        }
        true
    }

    /// The statements of `entity` that need references: every claim except
    /// those with reference-exempt properties and those whose value is an
    /// external identifier or a media file.
    pub fn get_statements_needing_references(&self, entity: &Entity) -> (r: Vec<
        EntityStatement,
    >)
        requires
            self.wf(),
        ensures
            r@.map_values(|s: EntityStatement| s@) == spec_eligible_statements(
                entity@.claims,
                entity@.id,
            ),
    {
        let n = entity.claims.len();
        let ghost cv = entity@.claims;
        let ghost eid = entity@.id;
        let mut out: Vec<EntityStatement> = Vec::new();
        proof {
            assert(cv.skip(0) =~= cv);
            assert(out@.map_values(|s: EntityStatement| s@)
                =~= Seq::<EntityStatementV>::empty());
            assert(Seq::<EntityStatementV>::empty() + spec_eligible_statements(cv, eid)
                =~= spec_eligible_statements(cv, eid));
        }
        let mut i: usize = 0;
        while i < n
            invariant
                self.wf(),
                n == cv.len(),
                cv == entity@.claims,
                eid == entity@.id,
                n == entity.claims@.len(),
                i <= n,
                spec_eligible_statements(cv, eid) == out@.map_values(
                    |s: EntityStatement| s@,
                ) + spec_eligible_statements(cv.skip(i as int), eid),
            decreases n - i,
        {
            let ghost pre = out@;
            let ghost rest = cv.skip(i as int);
            assert(rest[0] == cv[i as int]);
            assert(cv[i as int] == entity.claims@[i as int]@);
            let c = &entity.claims[i];
            let exempt = contains_string(&self.no_refs_for_properties, &c.main.property);
            let skip_type = match c.main.datatype {
                Datatype::ExternalId => true,
                Datatype::CommonsMedia => true,
                Datatype::Other => false,
            };
            if !exempt && !skip_type {
                assert(eligible_claim(rest[0]));
                let id = match &c.id {
                    Option::Some(s) => s.clone(),
                    Option::None => String::new(),
                };
                let es = EntityStatement {
                    entity: entity.id.clone(),
                    property: c.main.property.clone(),
                    id,
                    claim: crate::model::clone_statement(c),
                };
                proof {
                    assert(es@ =~~= entity_statement_of(eid, rest[0]));
                }
                out.push(es);
                proof {
                    assert(out@ =~= pre.push(es));
                    assert(out@.map_values(|s: EntityStatement| s@) =~= pre.map_values(
                        |s: EntityStatement| s@,
                    ) + seq![entity_statement_of(eid, rest[0])]);
                }
            } else {
                assert(!eligible_claim(rest[0]));
            }
            i += 1;
            proof {
                assert(rest.skip(1) =~= cv.skip(i as int));
                let tail = spec_eligible_statements(cv.skip(i as int), eid);
                let head = if eligible_claim(rest[0]) {
                    seq![entity_statement_of(eid, rest[0])]
                } else {
                    Seq::<EntityStatementV>::empty()
                };
                assert(spec_eligible_statements(rest, eid) == head + tail);
                assert(pre.map_values(|s: EntityStatement| s@) + (head + tail)
                    =~= out@.map_values(|s: EntityStatement| s@) + tail);
            }
        }
        proof {
            assert(cv.skip(n as int) =~= Seq::<StatementV>::empty());
            assert(out@.map_values(|s: EntityStatement| s@) + Seq::<
                EntityStatementV,
            >::empty() =~= out@.map_values(|s: EntityStatement| s@));
        }
        out
    }
}

/// An entity id as the pipeline keys it: trimmed, ASCII-uppercased.
pub fn normalize_entity_id(id: &str) -> (r: String)
    ensures
        r@ == trimmed(id@).map_values(|c: char| to_upper(c)),
{
    let v = chars_of(id);
    let t = trim_chars(v.as_slice());
    let u = crate::strutil::upper_chars(t.as_slice());
    string_of(u.as_slice())
}

/// A URL as it is fetched: HTML ampersand entities decoded, surrounding
/// blanks removed, spaces percent-encoded.
pub fn clean_url(url: &str) -> (r: String)
    ensures
        r@ == replaced(trimmed(replaced(url@, "&amp;"@, "&"@)), " "@, "%20"@),
{
    proof {
        reveal_strlit("&amp;");
        reveal_strlit(" ");
    }
    let v = chars_of(url);
    let amp = chars_of("&amp;");
    let amp_to = chars_of("&");
    let decoded = replace_sub(v.as_slice(), amp.as_slice(), amp_to.as_slice());
    let t = trim_chars(decoded.as_slice());
    let space = chars_of(" ");
    let pct = chars_of("%20");
    let encoded = replace_sub(t.as_slice(), space.as_slice(), pct.as_slice());
    string_of(encoded.as_slice())
}

} // verus!
