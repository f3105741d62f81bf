//! The candidate URL collector: what to fetch for an entity, and how the
//! fetched documents become candidate documents.
//!
//! Three sources feed the pool: outbound links of the entity's wiki pages,
//! the entity's own website statements, and formatter URLs built from its
//! external identifiers. The pool is keyed by URL; a URL fetched twice
//! keeps the later source's provenance.

use vstd::prelude::*;

use crate::model::{
    spec_string_values, DataValue, DataValueV, Entity, EntityV, SitelinkV,
};
use crate::strutil::{
    chars_of, contains_char, eq_at, find_first, is_word_char, matches_at, replace_sub,
    replaced, string_of, word_char,
};

verus! {

/// A character the wiki-family host pattern allows between `wik` and
/// `.org/`: a lowercase ASCII letter or a hyphen.
pub open spec fn is_host_run_char(c: char) -> bool {
    c == '-' || ('a' <= c && c <= 'z')
}

/// Whether a wiki-family host occurs in `url` with `wik` starting at `i`
/// (on a word boundary) and `.org/` starting at `j`.
pub open spec fn wiki_match_at(url: Seq<char>, i: int, j: int) -> bool {
    &&& 0 <= i
    &&& i + 4 <= j
    &&& j + 5 <= url.len()
    &&& (i == 0 || !is_word_char(url[i - 1]))
    &&& url.subrange(i, i + 3) == "wik"@
    &&& (forall|m: int| i + 3 <= m < j ==> is_host_run_char(#[trigger] url[m]))
    &&& url.subrange(j, j + 5) == ".org/"@
}

/// Whether the URL points at a wiki-family host (a word starting `wik`,
/// then letters or hyphens, then `.org/`): such links lead back into the
/// wiki family and are never sources.
pub open spec fn wiki_family_link(url: Seq<char>) -> bool {
    exists|i: int, j: int| wiki_match_at(url, i, j)
}

/// Executable form of [`is_host_run_char`].
fn host_run_char(c: char) -> (r: bool)
    ensures
        r == is_host_run_char(c),
{
    c == '-' || ('a' <= c && c <= 'z')
}

/// Whether the URL points at a wiki-family host.
pub fn is_wiki_family_link(url: &[char]) -> (r: bool)
    ensures
        r == wiki_family_link(url@),
{
    proof {
        reveal_strlit("wik");
        reveal_strlit(".org/");
    }
    let n = url.len();
    let wik = chars_of("wik");
    let org = chars_of(".org/");
    let mut i: usize = 0;
    while i < n
        invariant
            n == url@.len(),
            wik@ == "wik"@,
            org@ == ".org/"@,
            "wik"@.len() == 3,
            ".org/"@.len() == 5,
            i <= n,
            forall|i0: int, j0: int| 0 <= i0 < i ==> !wiki_match_at(url@, i0, j0),
        decreases n - i,
    {
        proof {
            reveal_strlit("wik");
            reveal_strlit(".org/");
        }
        let boundary = i == 0 || !word_char(url[i - 1]);
        if boundary && n - i >= 3 && eq_at(url, wik.as_slice(), i) {
            let mut k = i + 3;
            while k < n && host_run_char(url[k])
                invariant
                    n == url@.len(),
                    i + 3 <= k <= n,
                    forall|m: int| i + 3 <= m < k ==> is_host_run_char(#[trigger] url@[m]),
                decreases n - k,
            {
                k += 1;
            }
            if k > i + 3 && n - k >= 5 && eq_at(url, org.as_slice(), k) {
                proof {
                    assert(wiki_match_at(url@, i as int, k as int));
                }
                return true;
            }
            proof {
                assert(k == n || !is_host_run_char(url@[k as int]));
                assert forall|j: int| !wiki_match_at(url@, i as int, j) by {
                    if wiki_match_at(url@, i as int, j) {
                        if j < k {
                            assert(is_host_run_char(url@[j]));
                            assert(url@.subrange(j, j + 5)[0] == url@[j]);
                            assert(url@[j] == '.');
                        } else if j > k {
                            assert(k < n);
                            assert(is_host_run_char(url@[k as int]));
                        } else {
                            if k == i + 3 {
                                assert(j >= i + 4);
                            } else {
                                assert(!matches_at(url@, ".org/"@, k as int));
                                assert(url@.subrange(j, j + 5) =~= url@.subrange(
                                    k as int,
                                    k + 5,
                                ));
                            }
                        }
                    }
                }
            }
        } else {
            proof {
                assert forall|j: int| !wiki_match_at(url@, i as int, j) by {
                    if wiki_match_at(url@, i as int, j) {
                        assert(url@.subrange(i as int, i + 3) == "wik"@);
                        if n - i >= 3 {
                            assert(!boundary || !matches_at(url@, "wik"@, i as int));
                        }
                    }
                }
            }
        }
        i += 1;
    }
    proof {
        assert forall|i0: int, j0: int| !wiki_match_at(url@, i0, j0) by {
            if wiki_match_at(url@, i0, j0) {
                assert(0 <= i0 < n);
            }
        }
    }
    false
}

/// The web server that hosts a wiki, from the wiki's database name: the
/// language prefix before `wik`, joined with the family's domain.
pub open spec fn spec_web_server(wiki: Seq<char>) -> Seq<char> {
    let lang = match find_first(wiki, "wik"@) {
        Option::Some(i) => if 0 <= i <= wiki.len() {
            wiki.take(i)
        } else {
            wiki
        },
        Option::None => wiki,
    };
    if wiki.len() >= 4 && matches_at(wiki, "wiki"@, wiki.len() - 4) {
        lang + ".wikipedia.org"@
    } else if wiki.len() >= 10 && matches_at(wiki, "wikisource"@, wiki.len() - 10) {
        lang + ".wikisource.org"@
    } else if wiki.len() >= 10 && matches_at(wiki, "wiktionary"@, wiki.len() - 10) {
        lang + ".wiktionary.org"@
    } else if wiki.len() >= 9 && matches_at(wiki, "wikiquote"@, wiki.len() - 9) {
        lang + ".wikiquote.org"@
    } else {
        lang + ".wikipedia.org"@
    }
}

/// The web server that hosts a wiki.
pub fn get_web_server_for_wiki(wiki: &str) -> (r: String)
    ensures
        r@ == spec_web_server(wiki@),
{
    proof {
        reveal_strlit("wik");
        reveal_strlit("wiki");
        reveal_strlit("wikisource");
        reveal_strlit("wiktionary");
        reveal_strlit("wikiquote");
    }
    let wv = chars_of(wiki);
    let n = wv.len();
    let wik = chars_of("wik");
    let lang = match crate::strutil::find_first_sub(wv.as_slice(), wik.as_slice()) {
        Some(i) => {
            proof {
                crate::strutil::lemma_find_first_bounds(wiki@, "wik"@);
            }
            crate::strutil::subrange_vec(wv.as_slice(), 0, i)
        },
        None => crate::strutil::subrange_vec(wv.as_slice(), 0, n),
    };
    proof {
        assert(wv@.subrange(0, n as int) =~= wiki@);
    }
    let w4 = chars_of("wiki");
    let w10a = chars_of("wikisource");
    let w10b = chars_of("wiktionary");
    let w9 = chars_of("wikiquote");
    let suffix: &str = if crate::strutil::ends_with(wv.as_slice(), w4.as_slice()) {
        ".wikipedia.org"
    } else if crate::strutil::ends_with(wv.as_slice(), w10a.as_slice()) {
        ".wikisource.org"
    } else if crate::strutil::ends_with(wv.as_slice(), w10b.as_slice()) {
        ".wiktionary.org"
    } else if crate::strutil::ends_with(wv.as_slice(), w9.as_slice()) {
        ".wikiquote.org"
    } else {
        ".wikipedia.org"
    };
    let sv = chars_of(suffix);
    let mut out: Vec<char> = Vec::new();
    out.extend_from_slice(lang.as_slice());
    out.extend_from_slice(sv.as_slice());
    proof {
        assert(out@ =~= spec_web_server(wiki@));
    }
    string_of(out.as_slice())
}

/// One wiki page whose outbound-link listing is to be fetched.
pub struct WikiPageRequest {
    pub wiki: String,
    pub page: String,
    pub url: String,
}

/// Mathematical view of a [`WikiPageRequest`].
#[verifier::ext_equal]
pub struct WikiPageRequestV {
    pub wiki: Seq<char>,
    pub page: Seq<char>,
    pub url: Seq<char>,
}

impl View for WikiPageRequest {
    type V = WikiPageRequestV;

    open spec fn view(&self) -> WikiPageRequestV {
        WikiPageRequestV { wiki: self.wiki@, page: self.page@, url: self.url@ }
    }
}

/// The outbound-link listing URL for one wiki page.
pub open spec fn spec_listing_url(site: Seq<char>, title: Seq<char>) -> Seq<char> {
    "https://"@ + spec_web_server(site)
        + "/w/api.php?action=query&prop=extlinks&ellimit=500&elexpandurl=1&format=json&titles="@
        + replaced(title, " "@, "_"@)
}

/// The listing requests for an entity's sitelinks: one per sitelink whose
/// page title carries no namespace prefix (no colon).
pub open spec fn spec_wiki_requests(sitelinks: Seq<SitelinkV>) -> Seq<WikiPageRequestV>
    decreases sitelinks.len(),
{
    if sitelinks.len() == 0 {
        Seq::<WikiPageRequestV>::empty()
    } else {
        let head = if sitelinks[0].title.contains(':') {
            Seq::<WikiPageRequestV>::empty()
        } else {
            seq![
                WikiPageRequestV {
                    wiki: sitelinks[0].site,
                    page: sitelinks[0].title,
                    url: spec_listing_url(sitelinks[0].site, sitelinks[0].title),
                },
            ]
        };
        head + spec_wiki_requests(sitelinks.skip(1))
    }
}

/// The listing requests for an entity's sitelinks.
pub fn wiki_page_requests(entity: &Entity) -> (r: Vec<WikiPageRequest>)
    ensures
        r@.map_values(|w: WikiPageRequest| w@) == spec_wiki_requests(entity@.sitelinks),
{
    proof {
        reveal_strlit(" ");
    }
    let n = entity.sitelinks.len();
    let ghost sv = entity@.sitelinks;
    let mut out: Vec<WikiPageRequest> = Vec::new();
    proof {
        assert(sv.skip(0) =~= sv);
        assert(out@.map_values(|w: WikiPageRequest| w@) =~= Seq::<WikiPageRequestV>::empty());
        assert(Seq::<WikiPageRequestV>::empty() + spec_wiki_requests(sv)
            =~= spec_wiki_requests(sv));
    }
    let mut i: usize = 0;
    while i < n
        invariant
            n == sv.len(),
            sv == entity@.sitelinks,
            n == entity.sitelinks@.len(),
            i <= n,
            spec_wiki_requests(sv) == out@.map_values(|w: WikiPageRequest| w@)
                + spec_wiki_requests(sv.skip(i as int)),
        decreases n - i,
    {
        let ghost pre = out@;
        let ghost rest = sv.skip(i as int);
        assert(rest[0] == sv[i as int]);
        assert(sv[i as int] == entity.sitelinks@[i as int]@);
        proof {
            reveal_strlit(" ");
        }
        let sl = &entity.sitelinks[i];
        let title = chars_of(sl.title.as_str());
        if !contains_char(title.as_slice(), ':') {
            let server = get_web_server_for_wiki(sl.site.as_str());
            let space = chars_of(" ");
            let under = chars_of("_");
            let page_part = replace_sub(title.as_slice(), space.as_slice(), under.as_slice());
            let head = chars_of("https://");
            let query = chars_of(
                "/w/api.php?action=query&prop=extlinks&ellimit=500&elexpandurl=1&format=json&titles=",
            );
            let serverc = chars_of(server.as_str());
            let mut uv: Vec<char> = Vec::new();
            uv.extend_from_slice(head.as_slice());
            uv.extend_from_slice(serverc.as_slice());
            uv.extend_from_slice(query.as_slice());
            uv.extend_from_slice(page_part.as_slice());
            proof {
                assert(uv@ =~= spec_listing_url(rest[0].site, rest[0].title));
            }
            let req = WikiPageRequest {
                wiki: sl.site.clone(),
                page: sl.title.clone(),
                url: string_of(uv.as_slice()),
            };
            proof {
                assert(req@ =~~= (WikiPageRequestV {
                    wiki: rest[0].site,
                    page: rest[0].title,
                    url: spec_listing_url(rest[0].site, rest[0].title),
                }));
            }
            out.push(req);
            proof {
                assert(out@ =~= pre.push(req));
                assert(out@.map_values(|w: WikiPageRequest| w@) =~= pre.map_values(
                    |w: WikiPageRequest| w@,
                ) + seq![req@]);
            }
        }
        i += 1;
        proof {
            assert(rest.skip(1) =~= sv.skip(i as int));
            let tail = spec_wiki_requests(sv.skip(i as int));
            let head = if rest[0].title.contains(':') {
                Seq::<WikiPageRequestV>::empty()
            } else {
                seq![
                    WikiPageRequestV {
                        wiki: rest[0].site,
                        page: rest[0].title,
                        url: spec_listing_url(rest[0].site, rest[0].title),
                    },
                ]
            };
            assert(spec_wiki_requests(rest) == head + tail);
            assert(pre.map_values(|w: WikiPageRequest| w@) + (head + tail)
                =~= out@.map_values(|w: WikiPageRequest| w@) + tail);
        }
    }
    proof {
        assert(sv.skip(n as int) =~= Seq::<SitelinkV>::empty());
        assert(out@.map_values(|w: WikiPageRequest| w@) + Seq::<WikiPageRequestV>::empty()
            =~= out@.map_values(|w: WikiPageRequest| w@));
    }
    out
}

/// Keep-first deduplication of a list of strings.
pub open spec fn spec_dedup_first(s: Seq<Seq<char>>) -> Seq<Seq<char>>
    decreases s.len(),
{
    if s.len() == 0 {
        s
    } else {
        let p = spec_dedup_first(s.drop_last());
        if p.contains(s.last()) {
            p
        } else {
            p.push(s.last())
        }
    }
}

/// Deduplicate strings, keeping each first occurrence.
pub fn dedup_first(input: &Vec<String>) -> (r: Vec<String>)
    ensures
        r@.map_values(|s: String| s@) == spec_dedup_first(input@.map_values(|s: String| s@)),
{
    let n = input.len();
    let ghost iv = input@.map_values(|s: String| s@);
    let mut out: Vec<String> = Vec::new();
    proof {
        assert(out@.map_values(|s: String| s@) =~= spec_dedup_first(iv.take(0)));
    }
    let mut i: usize = 0;
    while i < n
        invariant
            n == iv.len(),
            iv == input@.map_values(|s: String| s@),
            n == input@.len(),
            i <= n,
            out@.map_values(|s: String| s@) == spec_dedup_first(iv.take(i as int)),
        decreases n - i,
    {
        let ghost pre = out@;
        assert(iv[i as int] == input@[i as int]@);
        let seen = crate::strutil::contains_string(&out, &input[i]);
        if !seen {
            out.push(input[i].clone());
        }
        i += 1;
        proof {
            let t = iv.take(i as int);
            assert(t.drop_last() =~= iv.take(i - 1));
            assert(t.last() == iv[i - 1]);
            if !seen {
                assert(out@ =~= pre.push(input@[(i - 1) as int]));
                assert(out@.map_values(|s: String| s@) =~= pre.map_values(|s: String| s@)
                    + seq![iv[i - 1]]);
            }
            assert(out@.map_values(|s: String| s@) =~= spec_dedup_first(t));
        }
    }
    proof {
        assert(iv.take(n as int) =~= iv);
    }
    out
}

/// The filtered outbound links of one page listing: links that start with
/// `http`, do not lead back into the wiki family, and have not been seen
/// earlier in the same listing.
pub open spec fn spec_select_links(links: Seq<Seq<char>>) -> Seq<Seq<char>>
    decreases links.len(),
{
    if links.len() == 0 {
        links
    } else {
        let p = spec_select_links(links.drop_last());
        let u = links.last();
        if u.len() >= 4 && u.subrange(0, 4) == "http"@ && !wiki_family_link(u)
            && !p.contains(u) {
            p.push(u)
        } else {
            p
        }
    }
}

/// Filter one page listing's outbound links.
pub fn select_external_links(links: &Vec<String>) -> (r: Vec<String>)
    ensures
        r@.map_values(|s: String| s@) == spec_select_links(
            links@.map_values(|s: String| s@),
        ),
{
    proof {
        reveal_strlit("http");
    }
    let n = links.len();
    let ghost iv = links@.map_values(|s: String| s@);
    let http = chars_of("http");
    let mut out: Vec<String> = Vec::new();
    proof {
        assert(out@.map_values(|s: String| s@) =~= spec_select_links(iv.take(0)));
    }
    let mut i: usize = 0;
    while i < n
        invariant
            n == iv.len(),
            iv == links@.map_values(|s: String| s@),
            n == links@.len(),
            http@ == "http"@,
            "http"@.len() == 4,
            i <= n,
            out@.map_values(|s: String| s@) == spec_select_links(iv.take(i as int)),
        decreases n - i,
    {
        let ghost pre = out@;
        assert(iv[i as int] == links@[i as int]@);
        let uv = chars_of(links[i].as_str());
        let mut keep = crate::strutil::starts_with(uv.as_slice(), http.as_slice());
        proof {
            assert(matches_at(iv[i as int], "http"@, 0) == (iv[i as int].len() >= 4
                && iv[i as int].subrange(0, 4) == "http"@));
        }
        if keep {
            if is_wiki_family_link(uv.as_slice()) {
                keep = false;
            }
        }
        if keep {
            if crate::strutil::contains_string(&out, &links[i]) {
                keep = false;
            }
        }
        if keep {
            out.push(links[i].clone());
        }
        i += 1;
        proof {
            let t = iv.take(i as int);
            assert(t.drop_last() =~= iv.take(i - 1));
            assert(t.last() == iv[i - 1]);
            if keep {
                assert(out@ =~= pre.push(links@[(i - 1) as int]));
                assert(out@.map_values(|s: String| s@) =~= pre.map_values(|s: String| s@)
                    + seq![iv[i - 1]]);
            }
            assert(out@.map_values(|s: String| s@) =~= spec_select_links(t));
        }
    }
    proof {
        assert(iv.take(n as int) =~= iv);
    }
    out
}

/// The external-identifier pairs of an entity's claims: property and
/// identifier value of every external-identifier statement, deduplicated
/// keeping first occurrences.
pub open spec fn spec_raw_external_pairs(claims: Seq<crate::model::StatementV>) -> Seq<
    (Seq<char>, Seq<char>),
>
    decreases claims.len(),
{
    if claims.len() == 0 {
        Seq::<(Seq<char>, Seq<char>)>::empty()
    } else {
        let head = if claims[0].main.datatype is ExternalId {
            match claims[0].main.value {
                Option::Some(DataValueV::StringValue(v)) => seq![
                    (claims[0].main.property, v),
                ],
                _ => Seq::<(Seq<char>, Seq<char>)>::empty(),
            }
        } else {
            Seq::<(Seq<char>, Seq<char>)>::empty()
        };
        head + spec_raw_external_pairs(claims.skip(1))
    }
}

/// Keep-first deduplication of pairs.
pub open spec fn spec_dedup_pairs(s: Seq<(Seq<char>, Seq<char>)>) -> Seq<
    (Seq<char>, Seq<char>),
>
    decreases s.len(),
{
    if s.len() == 0 {
        s
    } else {
        let p = spec_dedup_pairs(s.drop_last());
        if p.contains(s.last()) {
            p
        } else {
            p.push(s.last())
        }
    }
}

/// The deduplicated external-identifier pairs of an entity.
pub open spec fn spec_external_pairs(e: EntityV) -> Seq<(Seq<char>, Seq<char>)> {
    spec_dedup_pairs(spec_raw_external_pairs(e.claims))
}

/// The external-identifier pairs of an entity, deduplicated.
pub fn external_id_pairs(entity: &Entity) -> (r: Vec<(String, String)>)
    ensures
        r@.map_values(|p: (String, String)| (p.0@, p.1@)) == spec_external_pairs(entity@),
{
    let n = entity.claims.len();
    let ghost cv = entity@.claims;
    let mut raw: Vec<(String, String)> = Vec::new();
    proof {
        assert(cv.skip(0) =~= cv);
        assert(raw@.map_values(|p: (String, String)| (p.0@, p.1@)) =~= Seq::<
            (Seq<char>, Seq<char>),
        >::empty());
        assert(Seq::<(Seq<char>, Seq<char>)>::empty() + spec_raw_external_pairs(cv)
            =~= spec_raw_external_pairs(cv));
    }
    let mut i: usize = 0;
    while i < n
        invariant
            n == cv.len(),
            cv == entity@.claims,
            n == entity.claims@.len(),
            i <= n,
            spec_raw_external_pairs(cv) == raw@.map_values(
                |p: (String, String)| (p.0@, p.1@),
            ) + spec_raw_external_pairs(cv.skip(i as int)),
        decreases n - i,
    {
        let ghost pre = raw@;
        let ghost rest = cv.skip(i as int);
        assert(rest[0] == cv[i as int]);
        assert(cv[i as int] == entity.claims@[i as int]@);
        let c = &entity.claims[i];
        let is_ext = match c.main.datatype {
            crate::model::Datatype::ExternalId => true,
            _ => false,
        };
        if is_ext {
            match &c.main.value {
                Option::Some(DataValue::StringValue(v)) => {
                    let pair = (c.main.property.clone(), v.clone());
                    raw.push(pair);
                    proof {
                        assert(raw@.map_values(|p: (String, String)| (p.0@, p.1@))
                            =~= pre.map_values(|p: (String, String)| (p.0@, p.1@)) + seq![
                            (rest[0].main.property, v@),
                        ]);
                    }
                },
                _ => {},
            }
        }
        i += 1;
        proof {
            assert(rest.skip(1) =~= cv.skip(i as int));
            let tail = spec_raw_external_pairs(cv.skip(i as int));
            let head = if rest[0].main.datatype is ExternalId {
                match rest[0].main.value {
                    Option::Some(DataValueV::StringValue(v)) => seq![
                        (rest[0].main.property, v),
                    ],
                    _ => Seq::<(Seq<char>, Seq<char>)>::empty(),
                }
            } else {
                Seq::<(Seq<char>, Seq<char>)>::empty()
            };
            assert(spec_raw_external_pairs(rest) == head + tail);
            assert(pre.map_values(|p: (String, String)| (p.0@, p.1@)) + (head + tail)
                =~= raw@.map_values(|p: (String, String)| (p.0@, p.1@)) + tail);
        }
    }
    proof {
        assert(cv.skip(n as int) =~= Seq::<crate::model::StatementV>::empty());
        assert(raw@.map_values(|p: (String, String)| (p.0@, p.1@)) + Seq::<
            (Seq<char>, Seq<char>),
        >::empty() =~= raw@.map_values(|p: (String, String)| (p.0@, p.1@)));
    }
    // keep-first deduplication of the pairs
    let m = raw.len();
    let ghost rv = raw@.map_values(|p: (String, String)| (p.0@, p.1@));
    let mut out: Vec<(String, String)> = Vec::new();
    proof {
        assert(out@.map_values(|p: (String, String)| (p.0@, p.1@)) =~= spec_dedup_pairs(
            rv.take(0),
        ));
    }
    let mut j: usize = 0;
    while j < m
        invariant
            m == rv.len(),
            rv == raw@.map_values(|p: (String, String)| (p.0@, p.1@)),
            m == raw@.len(),
            j <= m,
            out@.map_values(|p: (String, String)| (p.0@, p.1@)) == spec_dedup_pairs(
                rv.take(j as int),
            ),
        decreases m - j,
    {
        let ghost pre = out@;
        assert(rv[j as int] == (raw@[j as int].0@, raw@[j as int].1@));
        let mut seen = false;
        let k_max = out.len();
        let mut k: usize = 0;
        while k < k_max
            invariant
                k_max == out@.len(),
                k <= k_max,
                pre == out@,
                j < raw@.len(),
                rv[j as int] == (raw@[j as int].0@, raw@[j as int].1@),
                seen == exists|q: int|
                    0 <= q < k && (#[trigger] out@[q].0@, out@[q].1@) == (
                        raw@[j as int].0@,
                        raw@[j as int].1@,
                    ),
            decreases k_max - k,
        {
            if out[k].0.eq(&raw[j].0) && out[k].1.eq(&raw[j].1) {
                proof {
                    assert((out@[k as int].0@, out@[k as int].1@) == (
                        raw@[j as int].0@,
                        raw@[j as int].1@,
                    ));
                }
                seen = true;
            }
            k += 1;
        }
        proof {
            let pm = pre.map_values(|p: (String, String)| (p.0@, p.1@));
            assert(seen == pm.contains(rv[j as int])) by {
                if seen {
                    let q = choose|q: int|
                        0 <= q < k_max && (#[trigger] out@[q].0@, out@[q].1@) == (
                            raw@[j as int].0@,
                            raw@[j as int].1@,
                        );
                    assert(pm[q] == rv[j as int]);
                }
                if pm.contains(rv[j as int]) {
                    let q = choose|q: int| 0 <= q < pm.len() && pm[q] == rv[j as int];
                    assert((out@[q].0@, out@[q].1@) == rv[j as int]);
                }
            }
        }
        if !seen {
            out.push((raw[j].0.clone(), raw[j].1.clone()));
        }
        j += 1;
        proof {
            let t = rv.take(j as int);
            assert(t.drop_last() =~= rv.take(j - 1));
            assert(t.last() == rv[j - 1]);
            if !seen {
                assert(out@.map_values(|p: (String, String)| (p.0@, p.1@))
                    =~= pre.map_values(|p: (String, String)| (p.0@, p.1@)) + seq![rv[j - 1]]);
            }
            assert(out@.map_values(|p: (String, String)| (p.0@, p.1@)) =~= spec_dedup_pairs(
                t,
            ));
        }
    }
    proof {
        assert(rv.take(m as int) =~= rv);
    }
    out
}

/// The deduplicated direct-website URLs of an entity: the string values of
/// its official-website and described-at-URL statements.
pub open spec fn spec_direct_websites(e: EntityV) -> Seq<Seq<char>> {
    spec_dedup_first(
        spec_string_values(e.claims, "P856"@) + spec_string_values(e.claims, "P973"@),
    )
}

/// The deduplicated direct-website URLs of an entity.
pub fn get_direct_websites(entity: &Entity) -> (r: Vec<String>)
    ensures
        r@.map_values(|s: String| s@) == spec_direct_websites(entity@),
{
    let mut sites = entity.string_values_for_property("P856");
    let ghost s856 = sites@.map_values(|s: String| s@);
    let mut described = entity.string_values_for_property("P973");
    let ghost s973 = described@.map_values(|s: String| s@);
    sites.append(&mut described);
    proof {
        assert(sites@.map_values(|s: String| s@) =~= s856 + s973);
    }
    dedup_first(&sites)
}

} // verus!
