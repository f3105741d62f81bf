//! The normalizer and the language guesser on concrete texts.

use wd_infernal::lang::guess_page_language_from_text;
use wd_infernal::text::html2text;

/// Tags inside the body become spaces; spacing collapses.
#[test]
fn tags_become_spaces() {
    let out = html2text("<body>Hello <i>big</i> world</body>");
    assert_eq!(out, "Hello big world");
}

/// Everything before the body opening and after the body close is cut.
#[test]
fn body_region_cut() {
    let out = html2text("<html><head><title>t</title></head><body class=\"x\">kept</body><footer>lost</footer>");
    assert_eq!(out, "kept");
}

/// Closed comments become spaces.
#[test]
fn comments_removed() {
    let out = html2text("x<!-- hidden -->y");
    assert_eq!(out, "x y");
}

/// Paragraph closings and self-closing line breaks become newlines; runs
/// of newlines collapse.
#[test]
fn breaks_become_newlines() {
    let out = html2text("a</p>b<br />c</div></p>d");
    assert_eq!(out, "a\nb\nc\nd");
}

/// Raw newlines in the source are spaces, not line structure.
#[test]
fn source_newlines_flattened() {
    let out = html2text("one\ntwo\nthree");
    assert_eq!(out, "one two three");
}

/// A document without a body tag is kept whole.
#[test]
fn no_body_tag() {
    let out = html2text("plain   text\twith   gaps");
    assert_eq!(out, "plain text with gaps");
}

/// Enough English function words pick English.
#[test]
fn guesses_english() {
    let text = "he was a man and it is the story of an actor and the story was his";
    assert_eq!(guess_page_language_from_text(text), "en");
}

/// Enough German function words pick German.
#[test]
fn guesses_german() {
    let text = "er war ein Mann und es ist das Leben und sie war eine Frau und das ist es";
    assert_eq!(guess_page_language_from_text(text), "de");
}

/// Low-signal text falls back to English.
#[test]
fn low_signal_default() {
    assert_eq!(guess_page_language_from_text("xyzzy plugh 12345"), "en");
    assert_eq!(guess_page_language_from_text(""), "en");
}

/// A tie between two languages above the floor falls back to English.
#[test]
fn tie_default() {
    // six matches each for German and French, none decisive
    let text = "er er er er er er est est est est est est";
    assert_eq!(guess_page_language_from_text(text), "en");
}
