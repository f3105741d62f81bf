//! The pattern generator on concrete values: precisions, locales, value
//! kinds.

use wd_infernal::dates::add_locale_specific_dates;
use wd_infernal::model::{DataValue, Datatype, Entity, EntityStatement, Snak, Statement};
use wd_infernal::referee::Referee;

fn entity_statement(property: &str, value: Option<DataValue>) -> EntityStatement {
    EntityStatement {
        entity: "Q1".to_string(),
        property: property.to_string(),
        id: "Q1$S".to_string(),
        claim: Statement {
            id: Some("Q1$S".to_string()),
            main: Snak {
                property: property.to_string(),
                datatype: Datatype::Other,
                value,
            },
            references: Vec::new(),
        },
    }
}

fn time_statement(time: &str, precision: u32) -> EntityStatement {
    entity_statement(
        "P569",
        Some(DataValue::Time {
            time: time.to_string(),
            precision,
        }),
    )
}

fn patterns_for(st: &EntityStatement, language: &str) -> Vec<String> {
    let referee = Referee::new();
    let loaded: Vec<Entity> = Vec::new();
    referee.get_statement_search_patterns(st, language, &loaded)
}

/// A year-precision value yields exactly the bare year.
#[test]
fn year_precision_bare_year() {
    let st = time_statement("+1990-05-17T00:00:00Z", 9);
    let pats = patterns_for(&st, "en");
    assert_eq!(pats, vec!["1990".to_string()]);
}

/// A day-precision value in English yields the ISO form and the long and
/// abbreviated month spellings.
#[test]
fn day_precision_english() {
    let st = time_statement("+1990-05-17T00:00:00Z", 11);
    let pats = patterns_for(&st, "en");
    assert_eq!(
        pats,
        vec![
            "1990-05-17".to_string(),
            "1990-05-17".to_string(),
            "May 17, 1990".to_string(),
            "May 17, 1990".to_string(),
        ]
    );
}

/// German day-precision spellings: month names long and short, numeric
/// forms padded and unpadded.
#[test]
fn day_precision_german() {
    let st = time_statement("+1990-03-05T00:00:00Z", 11);
    let pats = patterns_for(&st, "de");
    assert_eq!(
        pats,
        vec![
            "1990-03-05".to_string(),
            "1990-03-05".to_string(),
            "5. M\u{e4}rz 1990".to_string(),
            "5. M\u{e4} 1990".to_string(),
            "05. M\u{e4}rz 1990".to_string(),
            "05. M\u{e4} 1990".to_string(),
            "5. 3. 1990".to_string(),
            "5.3.1990".to_string(),
            "05. 03. 1990".to_string(),
            "05.03.1990".to_string(),
        ]
    );
}

/// French day-precision spelling.
#[test]
fn day_precision_french() {
    let st = time_statement("+1990-08-01T00:00:00Z", 11);
    let pats = patterns_for(&st, "fr");
    assert_eq!(
        pats,
        vec![
            "1990-08-01".to_string(),
            "1990-08-01".to_string(),
            "1 ao\u{fb}t 1990".to_string(),
        ]
    );
}

/// Other languages fall back to generic numeric separators.
#[test]
fn day_precision_generic() {
    let st = time_statement("+1990-05-07T00:00:00Z", 11);
    let pats = patterns_for(&st, "es");
    assert_eq!(
        pats,
        vec![
            "1990-05-07".to_string(),
            "1990-05-07".to_string(),
            "7. 5. 1990".to_string(),
            "7.5.1990".to_string(),
            "7/5/1990".to_string(),
            "07. 05. 1990".to_string(),
            "07.05.1990".to_string(),
            "07/05/1990".to_string(),
        ]
    );
}

/// A negative year keeps its digits; leading zeros are stripped.
#[test]
fn year_with_leading_zeros() {
    let st = time_statement("+0044-03-15T00:00:00Z", 9);
    let pats = patterns_for(&st, "en");
    assert_eq!(pats, vec!["44".to_string()]);
}

/// A time text that does not parse yields no patterns.
#[test]
fn malformed_time_text() {
    let st = time_statement("someday", 11);
    let pats = patterns_for(&st, "en");
    assert_eq!(pats.len(), 0);
}

/// Other precisions yield no patterns.
#[test]
fn month_precision_no_patterns() {
    let st = time_statement("+1990-05-17T00:00:00Z", 10);
    let pats = patterns_for(&st, "en");
    assert_eq!(pats.len(), 0);
}

/// A string value yields its literal text.
#[test]
fn string_value_literal() {
    let st = entity_statement("P1082", Some(DataValue::StringValue("12345".to_string())));
    let pats = patterns_for(&st, "en");
    assert_eq!(pats, vec!["12345".to_string()]);
}

/// A monolingual value yields its text, whatever its stored language.
#[test]
fn monolingual_value_literal() {
    let st = entity_statement(
        "P1448",
        Some(DataValue::Monolingual {
            language: "nl".to_string(),
            text: "Den Haag".to_string(),
        }),
    );
    let pats = patterns_for(&st, "en");
    assert_eq!(pats, vec!["Den Haag".to_string()]);
}

/// Quantities and coordinates yield no patterns.
#[test]
fn unsearchable_values() {
    let q = entity_statement("P1082", Some(DataValue::Quantity));
    assert_eq!(patterns_for(&q, "en").len(), 0);
    let c = entity_statement("P625", Some(DataValue::Coordinate));
    assert_eq!(patterns_for(&c, "en").len(), 0);
}

/// A reference-exempt property yields no patterns.
#[test]
fn exempt_property_no_patterns() {
    let st = entity_statement("P225", Some(DataValue::StringValue("Homo sapiens".to_string())));
    assert_eq!(patterns_for(&st, "en").len(), 0);
}

/// A linked entity yields its language-neutral label, its label and its
/// aliases in the target language, labels first, short texts dropped.
#[test]
fn linked_entity_labels_and_aliases() {
    let mut linked = Entity {
        id: "Q5".to_string(),
        claims: Vec::new(),
        sitelinks: Vec::new(),
        labels: Vec::new(),
        aliases: Vec::new(),
    };
    linked.labels.push(wd_infernal::model::Term {
        language: "mul".to_string(),
        value: "Terra".to_string(),
    });
    linked.labels.push(wd_infernal::model::Term {
        language: "en".to_string(),
        value: "Earth".to_string(),
    });
    linked.aliases.push(wd_infernal::model::Term {
        language: "en".to_string(),
        value: "the Blue Planet".to_string(),
    });
    linked.aliases.push(wd_infernal::model::Term {
        language: "en".to_string(),
        value: " X ".to_string(),
    });
    let st = entity_statement("P376", Some(DataValue::EntityId("Q5".to_string())));
    let referee = Referee::new();
    let pats = referee.get_statement_search_patterns(&st, "en", &vec![linked]);
    assert_eq!(
        pats,
        vec![
            "Terra".to_string(),
            "Earth".to_string(),
            "the Blue Planet".to_string(),
        ]
    );
}

/// The locale table alone, fed directly: day one of a month, unpadded and
/// padded forms differ.
#[test]
fn locale_table_direct() {
    let year: Vec<char> = "2003".chars().collect();
    let pats = add_locale_specific_dates("de", year.as_slice(), 1, 9);
    assert_eq!(pats[0], "2003-01-09");
    assert_eq!(pats[1], "9. Januar 2003");
    assert_eq!(pats[5], "9. 1. 2003");
    assert_eq!(pats[8], "09.01.2003");
}
