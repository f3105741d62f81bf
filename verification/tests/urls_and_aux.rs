//! URL handling, link filtering, and the auxiliary lookups.

use wd_infernal::change_wiki::ChangeWiki;
use wd_infernal::collect::{get_web_server_for_wiki, select_external_links};
use wd_infernal::given_names::GivenNames;
use wd_infernal::initial_search::InitialSearch;
use wd_infernal::referee::{clean_url, normalize_entity_id, Referee};

#[test]
fn test_generate_query_parameters() {
    let query = "A.A.Saveliev";
    let (q1, q2) = InitialSearch::generate_query_parameters(query);
    assert_eq!(q1, "A%_A%_Saveliev");
    assert_eq!(q2, "^A.*? A.*? Saveliev$");
}

#[test]
fn initials_without_dots() {
    let (q1, q2) = InitialSearch::generate_query_parameters("H M Manske");
    assert_eq!(q1, "H%_M%_Manske");
    assert_eq!(q2, "^H.*? M.*? Manske$");
}

#[test]
fn clean_url_decodes_and_encodes() {
    assert_eq!(clean_url(" http://a b&amp;c "), "http://a%20b&c");
    assert_eq!(clean_url("https://plain.example"), "https://plain.example");
}

#[test]
fn denylisted_urls_rejected() {
    let referee = Referee::new();
    assert!(!referee.validate_url("https://tools.wmflabs.org/x"));
    assert!(!referee.validate_url("https://viaf.org/viaf/123"));
    assert!(!referee.validate_url("https://www.google.com/search"));
    assert!(!referee.validate_url("https://x.toolforge.org/"));
    assert!(!referee.validate_url("http://g.co/abc"));
    assert!(referee.validate_url("https://example.com/page"));
}

#[test]
fn entity_id_normalized() {
    assert_eq!(normalize_entity_id(" q42 "), "Q42");
    assert_eq!(normalize_entity_id("Q42"), "Q42");
}

#[test]
fn wiki_servers() {
    assert_eq!(get_web_server_for_wiki("enwiki"), "en.wikipedia.org");
    assert_eq!(get_web_server_for_wiki("frwikisource"), "fr.wikisource.org");
    assert_eq!(get_web_server_for_wiki("dewiktionary"), "de.wiktionary.org");
    assert_eq!(get_web_server_for_wiki("itwikiquote"), "it.wikiquote.org");
    assert_eq!(get_web_server_for_wiki("wikidatawiki"), ".wikipedia.org");
}

#[test]
fn outbound_links_filtered() {
    let links = vec![
        "https://en.wikipedia.org/wiki/X".to_string(),
        "https://example.com/a".to_string(),
        "ftp://example.com/f".to_string(),
        "https://commons.wikimedia.org/y".to_string(),
        "https://example.com/a".to_string(),
        "http://other.example/b".to_string(),
    ];
    let kept = select_external_links(&links);
    assert_eq!(
        kept,
        vec!["https://example.com/a".to_string(), "http://other.example/b".to_string()]
    );
}

#[test]
fn wiki_name_normalized() {
    assert_eq!(ChangeWiki::normalize_wiki(" EN-Wiki! "), "enwiki");
    assert_eq!(ChangeWiki::normalize_wiki("de_wiki"), "de_wiki");
    let cw = ChangeWiki::new("ENWIKI", vec!["Magnus Manske".to_string()]);
    assert_eq!(cw.wiki_from, "enwiki");
    assert_eq!(cw.titles.len(), 1);
}

#[test]
fn given_name_lookups() {
    let gn = GivenNames::new(
        vec![("magnus".to_string(), 18575210usize)],
        vec![("maria".to_string(), 651usize)],
    );
    assert!(gn.is_male("magnus"));
    assert!(!gn.is_male("maria"));
    assert!(gn.is_female("maria"));
    assert!(!gn.is_female("magnus"));
    assert_eq!(gn.name2qid("magnus"), Some(18575210));
    assert_eq!(gn.name2qid("maria"), Some(651));
    assert_eq!(gn.name2qid("unknown"), None);
}

#[test]
fn wiki_family_needs_word_boundary() {
    let links = vec![
        "https://foowik.org/page".to_string(),
        "https://sub.wiki-data.org/page".to_string(),
        "https://de.wikisource.org/x".to_string(),
    ];
    let kept = select_external_links(&links);
    // `wik` inside a longer word is no wiki-family host; after a dot it is
    assert_eq!(kept, vec!["https://foowik.org/page".to_string()]);
}
