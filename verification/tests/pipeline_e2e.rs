//! End-to-end runs of the pipeline stages on small entities.

use wd_infernal::candidates::UrlType;
use wd_infernal::model::{DataValue, Datatype, Entity, Snak, Statement};
use wd_infernal::pipeline::{FetchTarget, FetchedDoc, PlanOutcome};
use wd_infernal::referee::Referee;

fn statement(id: &str, property: &str, datatype: Datatype, value: Option<DataValue>) -> Statement {
    Statement {
        id: if id.is_empty() { None } else { Some(id.to_string()) },
        main: Snak {
            property: property.to_string(),
            datatype,
            value,
        },
        references: Vec::new(),
    }
}

fn entity(id: &str, claims: Vec<Statement>) -> Entity {
    Entity {
        id: id.to_string(),
        claims,
        sitelinks: Vec::new(),
        labels: Vec::new(),
        aliases: Vec::new(),
    }
}

fn day_of_birth(id: &str) -> Statement {
    statement(
        id,
        "P569",
        Datatype::Other,
        Some(DataValue::Time {
            time: "+1990-05-17T00:00:00Z".to_string(),
            precision: 11,
        }),
    )
}

/// An entity marked as a disambiguation page yields an empty plan outcome.
#[test]
fn unsupported_entity_short_circuits() {
    let referee = Referee::new();
    let e = entity(
        "Q1",
        vec![
            statement("Q1$T", "P31", Datatype::Other, Some(DataValue::EntityId("Q4167410".to_string()))),
            day_of_birth("Q1$S1"),
        ],
    );
    match referee.plan(&e) {
        PlanOutcome::Unsupported => {}
        _ => panic!("expected the unsupported outcome"),
    }
}

/// An entity whose only statements are reference-exempt or external
/// identifiers yields no eligible statement and no fetch plan.
#[test]
fn no_eligible_statements_short_circuits() {
    let referee = Referee::new();
    let e = entity(
        "Q1",
        vec![
            statement("Q1$A", "P225", Datatype::Other, Some(DataValue::StringValue("Homo sapiens".to_string()))),
            statement("Q1$B", "P999", Datatype::ExternalId, Some(DataValue::StringValue("ABC123".to_string()))),
        ],
    );
    match referee.plan(&e) {
        PlanOutcome::NoEligibleStatements => {}
        _ => panic!("expected the no-eligible-statements outcome"),
    }
}

/// An external-identifier statement whose property has a formatter URL
/// produces a candidate URL with the identifier substituted, tagged with
/// the property and the identifier.
#[test]
fn formatter_url_candidate() {
    let referee = Referee::new();
    let e = entity(
        "Q1",
        vec![
            day_of_birth("Q1$S1"),
            statement("Q1$B", "P999", Datatype::ExternalId, Some(DataValue::StringValue("ABC123".to_string()))),
        ],
    );
    let plan = match referee.plan(&e) {
        PlanOutcome::Plan(p) => p,
        _ => panic!("expected a fetch plan"),
    };
    assert_eq!(plan.external_pairs.len(), 1);
    assert_eq!(plan.external_pairs[0].0, "P999");
    assert_eq!(plan.external_pairs[0].1, "ABC123");
    assert!(plan.entities_to_load.iter().any(|i| i == "P999"));

    let property_entity = entity(
        "P999",
        vec![statement(
            "P999$F",
            "P1630",
            Datatype::Other,
            Some(DataValue::StringValue("https://example.org/id/$1".to_string())),
        )],
    );
    let listings: Vec<Vec<String>> = Vec::new();
    let targets = referee.collect_targets(&plan, &listings, &vec![property_entity]);
    assert_eq!(targets.len(), 1);
    let t: &FetchTarget = &targets[0];
    assert_eq!(t.url, "https://example.org/id/ABC123");
    assert!(matches!(t.url_type, UrlType::ExternalId));
    assert_eq!(t.property.as_deref(), Some("P999"));
    assert_eq!(t.external_id.as_deref(), Some("ABC123"));
}

/// A day-of-birth statement and a page that spells the date in English
/// yield one merged record whose windows include the spelled date.
#[test]
fn date_match_end_to_end() {
    let referee = Referee::new();
    let e = entity("Q1", vec![day_of_birth("Q1$S1")]);
    let statements = referee.get_statements_needing_references(&e);
    assert_eq!(statements.len(), 1);

    let html = "<html><body><p>he was born on May 17, 1990 in a small town. \
        it is the story of a man. the man was an actor and he was famous.</p></body></html>";
    let docs = vec![FetchedDoc {
        target: FetchTarget {
            url: "https://example.com/bio".to_string(),
            url_type: UrlType::DirectWebsite,
            property: None,
            external_id: None,
        },
        html: html.to_string(),
    }];
    let loaded: Vec<Entity> = Vec::new();
    let result = referee.finish(&statements, &docs, &loaded);
    assert_eq!(result.len(), 1);
    let rec = &result[0];
    assert_eq!(rec.statement_id, "Q1$S1");
    assert_eq!(rec.url, "https://example.com/bio");
    assert_eq!(rec.language, "en");
    assert!(rec.texts.iter().any(|t| t.regexp_match == "May 17, 1990"));
}

/// A statement that already references the candidate URL yields nothing
/// for that candidate.
#[test]
fn existing_reference_suppresses_match() {
    let referee = Referee::new();
    let mut st = day_of_birth("Q1$S1");
    st.references.push(wd_infernal::model::ReferenceGroup {
        snaks: vec![Snak {
            property: "P854".to_string(),
            datatype: Datatype::Other,
            value: Some(DataValue::StringValue("https://example.com/bio".to_string())),
        }],
    });
    let e = entity("Q1", vec![st]);
    let statements = referee.get_statements_needing_references(&e);
    let html = "<html><body><p>he was born on May 17, 1990 in a small town. \
        it is the story of a man. the man was an actor and he was famous.</p></body></html>";
    let docs = vec![FetchedDoc {
        target: FetchTarget {
            url: "https://example.com/bio".to_string(),
            url_type: UrlType::DirectWebsite,
            property: None,
            external_id: None,
        },
        html: html.to_string(),
    }];
    let result = referee.finish(&statements, &docs, &Vec::new());
    assert_eq!(result.len(), 0);
}

/// Records for the described-at-URL property never reach the output.
#[test]
fn described_at_url_dropped() {
    let referee = Referee::new();
    let e = entity(
        "Q1",
        vec![statement(
            "Q1$D",
            "P973",
            Datatype::Other,
            Some(DataValue::StringValue("https://example.com/bio".to_string())),
        )],
    );
    let statements = referee.get_statements_needing_references(&e);
    assert_eq!(statements.len(), 1);
    let html = "<html><body><p>the page at https://example.com/bio is the page \
        of a man and he was an actor and it is the story and he was famous.</p></body></html>";
    let docs = vec![FetchedDoc {
        target: FetchTarget {
            url: "https://example.com/other".to_string(),
            url_type: UrlType::ExternalId,
            property: Some("P973".to_string()),
            external_id: Some("x".to_string()),
        },
        html: html.to_string(),
    }];
    let result = referee.finish(&statements, &docs, &Vec::new());
    assert_eq!(result.len(), 0);
}

/// An alias holding regex meta characters is escaped before matching: the
/// literal text still matches, and the pattern itself carries the escapes.
#[test]
fn alias_with_meta_characters() {
    let referee = Referee::new();
    let make_linked = || {
        let mut linked = entity("Q5", Vec::new());
        linked.labels.push(wd_infernal::model::Term {
            language: "en".to_string(),
            value: "C++Builder".to_string(),
        });
        linked
    };
    let e = entity(
        "Q1",
        vec![statement("Q1$L", "P101", Datatype::Other, Some(DataValue::EntityId("Q5".to_string())))],
    );
    let statements = referee.get_statements_needing_references(&e);
    let patterns = referee.get_statement_search_patterns(&statements[0], "en", &vec![make_linked()]);
    assert_eq!(patterns.len(), 1);
    assert_eq!(patterns[0], "C\\+\\+Builder");

    let html = "<html><body><p>he wrote C++Builder code and he was the one \
        and it is a story and the man was an author and a coder.</p></body></html>";
    let docs = vec![FetchedDoc {
        target: FetchTarget {
            url: "https://example.com/cpp".to_string(),
            url_type: UrlType::DirectWebsite,
            property: None,
            external_id: None,
        },
        html: html.to_string(),
    }];
    let result = referee.finish(&statements, &docs, &vec![make_linked()]);
    assert_eq!(result.len(), 1);
    assert!(result[0].texts.iter().any(|t| t.regexp_match == "C++Builder"));
}
