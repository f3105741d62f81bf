//! The merger on concrete records: deduplication, window union,
//! idempotence.

use wd_infernal::candidates::{ConciseUrlCandidate, TextPart};
use wd_infernal::merge::merge_cuc_candidates;

fn window(before: &str, matched: &str, after: &str) -> TextPart {
    TextPart {
        before: before.to_string(),
        regexp_match: matched.to_string(),
        after: after.to_string(),
    }
}

fn record(
    sid: &str,
    url: &str,
    property: Option<&str>,
    external_id: Option<&str>,
    language: &str,
    texts: Vec<TextPart>,
) -> ConciseUrlCandidate {
    ConciseUrlCandidate {
        statement_id: sid.to_string(),
        url: url.to_string(),
        property: property.map(|s| s.to_string()),
        external_id: external_id.map(|s| s.to_string()),
        stated_in: None,
        language: language.to_string(),
        texts,
    }
}

fn windows_eq(a: &TextPart, b: &TextPart) -> bool {
    a.before == b.before && a.regexp_match == b.regexp_match && a.after == b.after
}

fn records_eq(a: &ConciseUrlCandidate, b: &ConciseUrlCandidate) -> bool {
    a.statement_id == b.statement_id
        && a.url == b.url
        && a.property == b.property
        && a.external_id == b.external_id
        && a.stated_in == b.stated_in
        && a.language == b.language
        && a.texts.len() == b.texts.len()
        && a.texts.iter().zip(b.texts.iter()).all(|(x, y)| windows_eq(x, y))
}

/// Two records sharing the merge key collapse into one whose window list
/// is the deduplicated union of both, sorted.
#[test]
fn union_of_windows() {
    let input = vec![
        record("S1", "https://a", None, None, "en", vec![window("x", "m1", "y"), window("p", "m2", "q")]),
        record("S1", "https://a", None, None, "en", vec![window("p", "m2", "q"), window("a", "m0", "b")]),
    ];
    let merged = merge_cuc_candidates(&input);
    assert_eq!(merged.len(), 1);
    let texts = &merged[0].texts;
    assert_eq!(texts.len(), 3);
    assert!(windows_eq(&texts[0], &window("a", "m0", "b")));
    assert!(windows_eq(&texts[1], &window("p", "m2", "q")));
    assert!(windows_eq(&texts[2], &window("x", "m1", "y")));
}

/// Records with different merge keys stay separate and come out sorted by
/// statement id, URL, property, external id and language.
#[test]
fn distinct_keys_sorted() {
    let input = vec![
        record("S2", "https://b", None, None, "en", vec![window("", "m", "")]),
        record("S1", "https://b", None, None, "en", vec![window("", "m", "")]),
        record("S1", "https://a", Some("P9"), Some("x"), "de", vec![window("", "m", "")]),
        record("S1", "https://a", None, None, "en", vec![window("", "m", "")]),
    ];
    let merged = merge_cuc_candidates(&input);
    assert_eq!(merged.len(), 4);
    assert_eq!(merged[0].statement_id, "S1");
    assert_eq!(merged[0].url, "https://a");
    assert_eq!(merged[0].property, None);
    assert_eq!(merged[1].statement_id, "S1");
    assert_eq!(merged[1].url, "https://a");
    assert_eq!(merged[1].property.as_deref(), Some("P9"));
    assert_eq!(merged[2].statement_id, "S1");
    assert_eq!(merged[2].url, "https://b");
    assert_eq!(merged[3].statement_id, "S2");
}

/// Feeding the merger its own output back yields an identical list.
#[test]
fn idempotent_on_its_output() {
    let input = vec![
        record("S1", "https://a", None, None, "en", vec![window("x", "m1", "y")]),
        record("S1", "https://a", None, None, "en", vec![window("a", "m0", "b"), window("x", "m1", "y")]),
        record("S2", "https://c", Some("P7"), Some("id7"), "fr", vec![window("u", "m3", "v")]),
    ];
    let once = merge_cuc_candidates(&input);
    let twice = merge_cuc_candidates(&once);
    assert_eq!(once.len(), twice.len());
    for (a, b) in once.iter().zip(twice.iter()) {
        assert!(records_eq(a, b));
    }
}

/// An empty input merges to an empty output.
#[test]
fn empty_input() {
    let input: Vec<ConciseUrlCandidate> = Vec::new();
    let merged = merge_cuc_candidates(&input);
    assert_eq!(merged.len(), 0);
}

/// Equal windows inside one record are deduplicated and sorted.
#[test]
fn window_list_normalized() {
    let input = vec![record(
        "S1",
        "https://a",
        None,
        None,
        "en",
        vec![
            window("z", "m", "z"),
            window("a", "m", "a"),
            window("z", "m", "z"),
        ],
    )];
    let merged = merge_cuc_candidates(&input);
    assert_eq!(merged.len(), 1);
    assert_eq!(merged[0].texts.len(), 2);
    assert!(windows_eq(&merged[0].texts[0], &window("a", "m", "a")));
    assert!(windows_eq(&merged[0].texts[1], &window("z", "m", "z")));
}
