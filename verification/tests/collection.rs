//! Collection planning and provenance: sitelink listings, stated-in
//! attachment, the citizenship suppression.

use wd_infernal::candidates::UrlType;
use wd_infernal::collect::wiki_page_requests;
use wd_infernal::model::{DataValue, Datatype, Entity, Sitelink, Snak, Statement, Term};
use wd_infernal::pipeline::{FetchTarget, FetchedDoc};
use wd_infernal::referee::Referee;

fn statement(id: &str, property: &str, datatype: Datatype, value: Option<DataValue>) -> Statement {
    Statement {
        id: if id.is_empty() { None } else { Some(id.to_string()) },
        main: Snak {
            property: property.to_string(),
            datatype,
            value,
        },
        references: Vec::new(),
    }
}

fn entity(id: &str, claims: Vec<Statement>) -> Entity {
    Entity {
        id: id.to_string(),
        claims,
        sitelinks: Vec::new(),
        labels: Vec::new(),
        aliases: Vec::new(),
    }
}

/// Main-namespace sitelinks become listing requests; titles with a
/// namespace prefix are skipped and spaces are underscores in the URL.
#[test]
fn sitelinks_to_listing_requests() {
    let mut e = entity("Q1", Vec::new());
    e.sitelinks.push(Sitelink {
        site: "enwiki".to_string(),
        title: "Magnus Manske".to_string(),
    });
    e.sitelinks.push(Sitelink {
        site: "dewiki".to_string(),
        title: "Kategorie:Personen".to_string(),
    });
    let reqs = wiki_page_requests(&e);
    assert_eq!(reqs.len(), 1);
    assert_eq!(reqs[0].wiki, "enwiki");
    assert_eq!(reqs[0].page, "Magnus Manske");
    assert_eq!(
        reqs[0].url,
        "https://en.wikipedia.org/w/api.php?action=query&prop=extlinks&ellimit=500&elexpandurl=1&format=json&titles=Magnus_Manske"
    );
}

/// A record from a formatter-URL candidate carries the identifier
/// property's stated-in entity.
#[test]
fn stated_in_attached() {
    let referee = Referee::new();
    let e = entity(
        "Q1",
        vec![statement(
            "Q1$S1",
            "P569",
            Datatype::Other,
            Some(DataValue::Time {
                time: "+1990-05-17T00:00:00Z".to_string(),
                precision: 11,
            }),
        )],
    );
    let statements = referee.get_statements_needing_references(&e);
    let property_entity = entity(
        "P999",
        vec![statement(
            "P999$SI",
            "P9073",
            Datatype::Other,
            Some(DataValue::EntityId("Q100".to_string())),
        )],
    );
    let html = "<html><body><p>he was born on May 17, 1990 in a small town. \
        it is the story of a man. the man was an actor and he was famous.</p></body></html>";
    let docs = vec![FetchedDoc {
        target: FetchTarget {
            url: "https://example.org/id/ABC123".to_string(),
            url_type: UrlType::ExternalId,
            property: Some("P999".to_string()),
            external_id: Some("ABC123".to_string()),
        },
        html: html.to_string(),
    }];
    let result = referee.finish(&statements, &docs, &vec![property_entity]);
    assert_eq!(result.len(), 1);
    assert_eq!(result[0].property.as_deref(), Some("P999"));
    assert_eq!(result[0].external_id.as_deref(), Some("ABC123"));
    assert_eq!(result[0].stated_in.as_deref(), Some("Q100"));
}

/// Citizenship statements are never matched against the suppressed
/// auction-house domain, but match elsewhere.
#[test]
fn citizenship_suppression() {
    let referee = Referee::new();
    let mut linked = entity("Q183", Vec::new());
    linked.labels.push(Term {
        language: "en".to_string(),
        value: "Germany".to_string(),
    });
    let e = entity(
        "Q1",
        vec![statement(
            "Q1$C",
            "P27",
            Datatype::Other,
            Some(DataValue::EntityId("Q183".to_string())),
        )],
    );
    let statements = referee.get_statements_needing_references(&e);
    let html = "<html><body><p>he was born in Germany and it is the story of \
        a man and the man was an actor and he was famous there.</p></body></html>";
    let suppressed = vec![FetchedDoc {
        target: FetchTarget {
            url: "https://www.invaluable.com/artist/x".to_string(),
            url_type: UrlType::DirectWebsite,
            property: None,
            external_id: None,
        },
        html: html.to_string(),
    }];
    let linked_entities = vec![linked];
    let none = referee.finish(&statements, &suppressed, &linked_entities);
    assert_eq!(none.len(), 0);

    let allowed = vec![FetchedDoc {
        target: FetchTarget {
            url: "https://example.com/person".to_string(),
            url_type: UrlType::DirectWebsite,
            property: None,
            external_id: None,
        },
        html: html.to_string(),
    }];
    let some = referee.finish(&statements, &allowed, &linked_entities);
    assert_eq!(some.len(), 1);
    assert!(some[0].texts.iter().any(|t| t.regexp_match == "Germany"));
}

/// A URL fetched by two sources keeps one pool entry: the later source's
/// provenance wins.
#[test]
fn pool_deduplicates_by_url() {
    let referee = Referee::new();
    let e = entity(
        "Q1",
        vec![statement(
            "Q1$S1",
            "P569",
            Datatype::Other,
            Some(DataValue::Time {
                time: "+1990-05-17T00:00:00Z".to_string(),
                precision: 11,
            }),
        )],
    );
    let statements = referee.get_statements_needing_references(&e);
    let html = "<html><body><p>he was born on May 17, 1990 in a small town. \
        it is the story of a man. the man was an actor and he was famous.</p></body></html>";
    let target = |ty: UrlType, prop: Option<&str>| FetchTarget {
        url: "https://example.com/bio".to_string(),
        url_type: ty,
        property: prop.map(|s| s.to_string()),
        external_id: prop.map(|_| "ID9".to_string()),
    };
    let docs = vec![
        FetchedDoc {
            target: target(UrlType::WikiExternal, None),
            html: html.to_string(),
        },
        FetchedDoc {
            target: target(UrlType::ExternalId, Some("P999")),
            html: html.to_string(),
        },
    ];
    let result = referee.finish(&statements, &docs, &Vec::new());
    assert_eq!(result.len(), 1);
    assert_eq!(result[0].property.as_deref(), Some("P999"));
    assert_eq!(result[0].external_id.as_deref(), Some("ID9"));
}

/// A statement without an id yields no records at all.
#[test]
fn statement_without_id_skipped() {
    let referee = Referee::new();
    let e = entity(
        "Q1",
        vec![statement(
            "",
            "P569",
            Datatype::Other,
            Some(DataValue::Time {
                time: "+1990-05-17T00:00:00Z".to_string(),
                precision: 11,
            }),
        )],
    );
    let statements = referee.get_statements_needing_references(&e);
    assert_eq!(statements.len(), 1);
    let html = "<html><body><p>he was born on May 17, 1990 in a small town. \
        it is the story of a man. the man was an actor and he was famous.</p></body></html>";
    let docs = vec![FetchedDoc {
        target: FetchTarget {
            url: "https://example.com/bio".to_string(),
            url_type: UrlType::DirectWebsite,
            property: None,
            external_id: None,
        },
        html: html.to_string(),
    }];
    let result = referee.finish(&statements, &docs, &Vec::new());
    assert_eq!(result.len(), 0);
}

/// An external-identifier candidate already cited through its property and
/// value pair is skipped.
#[test]
fn existing_identifier_reference_suppresses_match() {
    let referee = Referee::new();
    let mut st = statement(
        "Q1$S1",
        "P569",
        Datatype::Other,
        Some(DataValue::Time {
            time: "+1990-05-17T00:00:00Z".to_string(),
            precision: 11,
        }),
    );
    st.references.push(wd_infernal::model::ReferenceGroup {
        snaks: vec![Snak {
            property: "P999".to_string(),
            datatype: Datatype::ExternalId,
            value: Some(DataValue::StringValue("ABC123".to_string())),
        }],
    });
    let e = entity("Q1", vec![st]);
    let statements = referee.get_statements_needing_references(&e);
    let html = "<html><body><p>he was born on May 17, 1990 in a small town. \
        it is the story of a man. the man was an actor and he was famous.</p></body></html>";
    let docs = vec![FetchedDoc {
        target: FetchTarget {
            url: "https://example.org/id/ABC123".to_string(),
            url_type: UrlType::ExternalId,
            property: Some("P999".to_string()),
            external_id: Some("ABC123".to_string()),
        },
        html: html.to_string(),
    }];
    let result = referee.finish(&statements, &docs, &Vec::new());
    assert_eq!(result.len(), 0);
}
