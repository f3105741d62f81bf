//! Candidate documents and output records.
//!
//! A [`UrlCandidate`] is one fetched document with its provenance; a
//! [`ConciseUrlCandidate`] is one proposed reference for one statement. The
//! orders defined here drive the deterministic sort of the merger.

use vstd::prelude::*;

use crate::order::{lex_lt, lemma_lex_connected, lemma_lex_trans, lemma_opt_lex_connected,
    lemma_opt_lex_trans, opt_lex_lt, opt_string_eq, opt_string_lt, opt_view, string_lt};
use crate::strutil::chars_of;

verus! {

/// Where a candidate URL came from.
pub enum UrlType {
    /// An outbound link of a wiki page the entity is linked to.
    WikiExternal,
    /// A formatter URL filled in with an external identifier.
    ExternalId,
    /// An official-website or described-at-URL statement value.
    DirectWebsite,
}

/// One fetched candidate document with its provenance.
pub struct UrlCandidate {
    pub url: String,
    pub url_type: UrlType,
    pub property: Option<String>,
    pub external_id: Option<String>,
    pub stated_in: Option<String>,
    pub language: String,
    pub text: String,
}

/// One matched context window: the text before, the match, the text after.
pub struct TextPart {
    pub before: String,
    pub regexp_match: String,
    pub after: String,
}

/// One proposed reference: a statement, a source URL, provenance, and the
/// matched windows.
pub struct ConciseUrlCandidate {
    pub statement_id: String,
    pub url: String,
    pub property: Option<String>,
    pub external_id: Option<String>,
    pub stated_in: Option<String>,
    pub language: String,
    pub texts: Vec<TextPart>,
}

/// Mathematical view of a [`UrlCandidate`].
#[verifier::ext_equal]
pub struct UrlCandidateV {
    pub url: Seq<char>,
    pub url_type: UrlType,
    pub property: Option<Seq<char>>,
    pub external_id: Option<Seq<char>>,
    pub stated_in: Option<Seq<char>>,
    pub language: Seq<char>,
    pub text: Seq<char>,
}

/// Mathematical view of a [`TextPart`].
#[verifier::ext_equal]
pub struct TextPartV {
    pub before: Seq<char>,
    pub regexp_match: Seq<char>,
    pub after: Seq<char>,
}

/// Mathematical view of a [`ConciseUrlCandidate`].
#[verifier::ext_equal]
pub struct ConciseUrlCandidateV {
    pub statement_id: Seq<char>,
    pub url: Seq<char>,
    pub property: Option<Seq<char>>,
    pub external_id: Option<Seq<char>>,
    pub stated_in: Option<Seq<char>>,
    pub language: Seq<char>,
    pub texts: Seq<TextPartV>,
}

impl View for UrlCandidate {
    type V = UrlCandidateV;

    open spec fn view(&self) -> UrlCandidateV {
        UrlCandidateV {
            url: self.url@,
            url_type: self.url_type,
            property: opt_view(self.property),
            external_id: opt_view(self.external_id),
            stated_in: opt_view(self.stated_in),
            language: self.language@,
            text: self.text@,
        }
    }
}

impl View for TextPart {
    type V = TextPartV;

    open spec fn view(&self) -> TextPartV {
        TextPartV {
            before: self.before@,
            regexp_match: self.regexp_match@,
            after: self.after@,
        }
    }
}

/// Views of a sequence of text parts.
pub open spec fn tp_views(s: Seq<TextPart>) -> Seq<TextPartV> {
    s.map_values(|t: TextPart| t@)
}

impl View for ConciseUrlCandidate {
    type V = ConciseUrlCandidateV;

    open spec fn view(&self) -> ConciseUrlCandidateV {
        ConciseUrlCandidateV {
            statement_id: self.statement_id@,
            url: self.url@,
            property: opt_view(self.property),
            external_id: opt_view(self.external_id),
            stated_in: opt_view(self.stated_in),
            language: self.language@,
            texts: tp_views(self.texts@),
        }
    }
}

/// Views of a sequence of concise candidates.
pub open spec fn cand_views(s: Seq<ConciseUrlCandidate>) -> Seq<ConciseUrlCandidateV> {
    s.map_values(|c: ConciseUrlCandidate| c@)
}

/// The merge key: statement id, URL, property, external id. The language is
/// informational and not part of the key.
pub open spec fn key4(c: ConciseUrlCandidateV) -> (
    Seq<char>,
    Seq<char>,
    Option<Seq<char>>,
    Option<Seq<char>>,
) {
    (c.statement_id, c.url, c.property, c.external_id)
}

/// The sort key: the merge key followed by the language.
pub open spec fn key5(c: ConciseUrlCandidateV) -> (
    Seq<char>,
    Seq<char>,
    Option<Seq<char>>,
    Option<Seq<char>>,
    Seq<char>,
) {
    (c.statement_id, c.url, c.property, c.external_id, c.language)
}

/// Strict sort order on records: lexicographic over the sort key.
pub open spec fn cand_lt(a: ConciseUrlCandidateV, b: ConciseUrlCandidateV) -> bool {
    ||| lex_lt(a.statement_id, b.statement_id)
    ||| (a.statement_id == b.statement_id && (lex_lt(a.url, b.url) || (a.url == b.url && (
        opt_lex_lt(a.property, b.property) || (a.property == b.property && (opt_lex_lt(
        a.external_id,
        b.external_id,
    ) || (a.external_id == b.external_id && lex_lt(a.language, b.language))))))))
}

/// Reflexive sort order on records: strictly less, or an equal sort key.
pub open spec fn cand_le(a: ConciseUrlCandidateV, b: ConciseUrlCandidateV) -> bool {
    cand_lt(a, b) || key5(a) == key5(b)
}

/// Strict order on windows: lexicographic over before, match, after.
pub open spec fn tp_lt(a: TextPartV, b: TextPartV) -> bool {
    ||| lex_lt(a.before, b.before)
    ||| (a.before == b.before && (lex_lt(a.regexp_match, b.regexp_match) || (a.regexp_match
        == b.regexp_match && lex_lt(a.after, b.after))))
}

/// Reflexive order on windows.
pub open spec fn tp_le(a: TextPartV, b: TextPartV) -> bool {
    tp_lt(a, b) || a == b
}

/// The record order is connected and asymmetric on sort keys.
pub proof fn lemma_cand_connected(a: ConciseUrlCandidateV, b: ConciseUrlCandidateV)
    ensures
        cand_lt(a, b) || cand_lt(b, a) || key5(a) == key5(b),
        cand_lt(a, b) ==> !cand_lt(b, a) && key5(a) != key5(b),
{
    lemma_lex_connected(a.statement_id, b.statement_id);
    lemma_lex_connected(a.url, b.url);
    lemma_opt_lex_connected(a.property, b.property);
    lemma_opt_lex_connected(a.external_id, b.external_id);
    lemma_lex_connected(a.language, b.language);
}

/// The record order is transitive.
pub proof fn lemma_cand_trans(
    a: ConciseUrlCandidateV,
    b: ConciseUrlCandidateV,
    c: ConciseUrlCandidateV,
)
    requires
        cand_le(a, b),
        cand_le(b, c),
    ensures
        cand_le(a, c),
{
    lemma_cand_connected(a, b);
    lemma_cand_connected(b, c);
    lemma_cand_connected(a, c);
    if cand_lt(a, b) && cand_lt(b, c) {
        if lex_lt(a.statement_id, b.statement_id) && lex_lt(b.statement_id, c.statement_id) {
            lemma_lex_trans(a.statement_id, b.statement_id, c.statement_id);
        }
        if a.statement_id == b.statement_id && b.statement_id == c.statement_id {
            if lex_lt(a.url, b.url) && lex_lt(b.url, c.url) {
                lemma_lex_trans(a.url, b.url, c.url);
            }
            if a.url == b.url && b.url == c.url {
                if opt_lex_lt(a.property, b.property) && opt_lex_lt(b.property, c.property) {
                    lemma_opt_lex_trans(a.property, b.property, c.property);
                }
                if a.property == b.property && b.property == c.property {
                    if opt_lex_lt(a.external_id, b.external_id) && opt_lex_lt(
                        b.external_id,
                        c.external_id,
                    ) {
                        lemma_opt_lex_trans(a.external_id, b.external_id, c.external_id);
                    }
                    if a.external_id == b.external_id && b.external_id == c.external_id {
                        if lex_lt(a.language, b.language) && lex_lt(b.language, c.language) {
                            lemma_lex_trans(a.language, b.language, c.language);
                        }
                    }
                }
            }
        }
    }
}

/// The window order is connected and asymmetric.
pub proof fn lemma_tp_connected(a: TextPartV, b: TextPartV)
    ensures
        tp_lt(a, b) || tp_lt(b, a) || a == b,
        tp_lt(a, b) ==> !tp_lt(b, a) && a != b,
{
    lemma_lex_connected(a.before, b.before);
    lemma_lex_connected(a.regexp_match, b.regexp_match);
    lemma_lex_connected(a.after, b.after);
}

/// The window order is transitive.
pub proof fn lemma_tp_trans(a: TextPartV, b: TextPartV, c: TextPartV)
    requires
        tp_le(a, b),
        tp_le(b, c),
    ensures
        tp_le(a, c),
{
    lemma_tp_connected(a, b);
    lemma_tp_connected(b, c);
    lemma_tp_connected(a, c);
    if tp_lt(a, b) && tp_lt(b, c) {
        if lex_lt(a.before, b.before) && lex_lt(b.before, c.before) {
            lemma_lex_trans(a.before, b.before, c.before);
        }
        if a.before == b.before && b.before == c.before {
            if lex_lt(a.regexp_match, b.regexp_match) && lex_lt(
                b.regexp_match,
                c.regexp_match,
            ) {
                lemma_lex_trans(a.regexp_match, b.regexp_match, c.regexp_match);
            }
            if a.regexp_match == b.regexp_match && b.regexp_match == c.regexp_match {
                if lex_lt(a.after, b.after) && lex_lt(b.after, c.after) {
                    lemma_lex_trans(a.after, b.after, c.after);
                }
            }
        }
    }
}

/// Compare two records by the sort order (reflexive form).
pub fn cand_le_exec(a: &ConciseUrlCandidate, b: &ConciseUrlCandidate) -> (r: bool)
    ensures
        r == cand_le(a@, b@),
{
    proof {
        lemma_cand_connected(a@, b@);
    }
    if string_lt(&a.statement_id, &b.statement_id) {
        return true;
    }
    if !a.statement_id.eq(&b.statement_id) {
        return false;
    }
    if string_lt(&a.url, &b.url) {
        return true;
    }
    if !a.url.eq(&b.url) {
        return false;
    }
    if opt_string_lt(&a.property, &b.property) {
        return true;
    }
    if !opt_string_eq(&a.property, &b.property) {
        return false;
    }
    if opt_string_lt(&a.external_id, &b.external_id) {
        return true;
    }
    if !opt_string_eq(&a.external_id, &b.external_id) {
        return false;
    }
    if string_lt(&a.language, &b.language) {
        return true;
    }
    a.language.eq(&b.language)
}

/// Whether two records share the merge key.
pub fn key4_eq_exec(a: &ConciseUrlCandidate, b: &ConciseUrlCandidate) -> (r: bool)
    ensures
        r == (key4(a@) == key4(b@)),
{
    let r = a.statement_id.eq(&b.statement_id) && a.url.eq(&b.url) && opt_string_eq(
        &a.property,
        &b.property,
    ) && opt_string_eq(&a.external_id, &b.external_id);
    proof {
        if r {
            assert(key4(a@) =~= key4(b@));
        }
    }
    r
}

/// Compare two windows by their order (reflexive form).
pub fn tp_le_exec(a: &TextPart, b: &TextPart) -> (r: bool)
    ensures
        r == tp_le(a@, b@),
{
    proof {
        lemma_tp_connected(a@, b@);
    }
    if string_lt(&a.before, &b.before) {
        return true;
    }
    if !a.before.eq(&b.before) {
        return false;
    }
    if string_lt(&a.regexp_match, &b.regexp_match) {
        return true;
    }
    if !a.regexp_match.eq(&b.regexp_match) {
        return false;
    }
    if string_lt(&a.after, &b.after) {
        return true;
    }
    a.after.eq(&b.after)
}

/// Whether two windows are equal.
pub fn tp_eq_exec(a: &TextPart, b: &TextPart) -> (r: bool)
    ensures
        r == (a@ == b@),
{
    let r = a.before.eq(&b.before) && a.regexp_match.eq(&b.regexp_match) && a.after.eq(
        &b.after,
    );
    proof {
        if r {
            assert(a@ =~= b@);
        }
    }
    r
}

/// Copy of a window.
pub fn clone_text_part(t: &TextPart) -> (r: TextPart)
    ensures
        r@ == t@,
{
    let r = TextPart {
        before: t.before.clone(),
        regexp_match: t.regexp_match.clone(),
        after: t.after.clone(),
    };
    proof {
        assert(r@ =~~= t@);
    }
    r
}

/// Copy of a record, windows included.
pub fn clone_candidate(c: &ConciseUrlCandidate) -> (r: ConciseUrlCandidate)
    ensures
        r@ == c@,
{
    let mut texts: Vec<TextPart> = Vec::new();
    let n = c.texts.len();
    let mut i: usize = 0;
    proof {
        assert(tp_views(texts@) =~= tp_views(c.texts@).subrange(0, 0));
    }
    while i < n
        invariant
            n == c.texts@.len(),
            i <= n,
            tp_views(texts@) == tp_views(c.texts@).subrange(0, i as int),
        decreases n - i,
    {
        let ghost pre = texts@;
        let t = clone_text_part(&c.texts[i]);
        texts.push(t);
        i += 1;
        proof {
            assert(texts@ =~= pre.push(t));
            assert(tp_views(pre).len() == pre.len());
            assert(tp_views(pre) == tp_views(c.texts@).subrange(0, (i - 1) as int));
            assert(pre.len() == i - 1);
            assert(tp_views(c.texts@).len() == n);
            assert(t@ == c.texts@[(i - 1) as int]@);
            assert(tp_views(c.texts@)[(i - 1) as int] == c.texts@[(i - 1) as int]@);
            assert(tp_views(texts@) =~= tp_views(c.texts@).subrange(0, i as int));
        }
    }
    proof {
        assert(tp_views(c.texts@).subrange(0, n as int) =~= tp_views(c.texts@));
    }
    let r = ConciseUrlCandidate {
        statement_id: c.statement_id.clone(),
        url: c.url.clone(),
        property: crate::model::clone_opt_string(&c.property),
        external_id: crate::model::clone_opt_string(&c.external_id),
        stated_in: crate::model::clone_opt_string(&c.stated_in),
        language: c.language.clone(),
        texts,
    };
    proof {
        assert(r@ =~~= c@);
    }
    r
}

/// Copy of a candidate document.
pub fn clone_url_candidate(c: &UrlCandidate) -> (r: UrlCandidate)
    ensures
        r@ == c@,
{
    let r = UrlCandidate {
        url: c.url.clone(),
        url_type: match c.url_type {
            UrlType::WikiExternal => UrlType::WikiExternal,
            UrlType::ExternalId => UrlType::ExternalId,
            UrlType::DirectWebsite => UrlType::DirectWebsite,
        },
        property: crate::model::clone_opt_string(&c.property),
        external_id: crate::model::clone_opt_string(&c.external_id),
        stated_in: crate::model::clone_opt_string(&c.stated_in),
        language: c.language.clone(),
        text: c.text.clone(),
    };
    proof {
        assert(r@ =~~= c@);
    }
    r
}

impl ConciseUrlCandidate {
    /// The record for one match window found in one candidate document.
    pub fn new(statement_id: &str, uc: &UrlCandidate, tp: &TextPart) -> (r:
        ConciseUrlCandidate)
        ensures
            r@ == (ConciseUrlCandidateV {
                statement_id: statement_id@,
                url: uc@.url,
                property: uc@.property,
                external_id: uc@.external_id,
                stated_in: uc@.stated_in,
                language: uc@.language,
                texts: seq![tp@],
            }),
    {
        let mut texts: Vec<TextPart> = Vec::new();
        texts.push(clone_text_part(tp));
        let r = ConciseUrlCandidate {
            statement_id: statement_id.to_owned(),
            url: uc.url.clone(),
            property: crate::model::clone_opt_string(&uc.property),
            external_id: crate::model::clone_opt_string(&uc.external_id),
            stated_in: crate::model::clone_opt_string(&uc.stated_in),
            language: uc.language.clone(),
            texts,
        };
        proof {
            assert(tp_views(r.texts@) =~= seq![tp@]);
            assert(r@ =~~= (ConciseUrlCandidateV {
                statement_id: statement_id@,
                url: uc@.url,
                property: uc@.property,
                external_id: uc@.external_id,
                stated_in: uc@.stated_in,
                language: uc@.language,
                texts: seq![tp@],
            }));
        }
        r
    }
}

} // verus!
