//! Mapping page titles from one wiki to another: the wiki-name
//! normalization and the request holder. The title lookups themselves run
//! against the knowledge base and are left to the caller.

use vstd::prelude::*;

use crate::strutil::{chars_of, string_of, to_lower};

verus! {

/// Whether a character may stand in a normalized wiki name.
pub open spec fn is_wiki_name_char(c: char) -> bool {
    ('a' <= c && c <= 'z') || c == '_'
}

/// A wiki name normalized for database use: ASCII letters lowercased, then
/// everything but lowercase letters and underscores dropped.
pub open spec fn spec_normalize_wiki(s: Seq<char>) -> Seq<char> {
    s.map_values(|c: char| to_lower(c)).filter(|c: char| is_wiki_name_char(c))
}

/// A batch of page titles to map from one wiki to another.
pub struct ChangeWiki {
    pub wiki_from: String,
    pub titles: Vec<String>,
}

impl ChangeWiki {
    /// Normalize a wiki name to a lowercase string with only letters and
    /// underscores; the result is safe for database use.
    pub fn normalize_wiki(wiki: &str) -> (r: String)
        ensures
            r@ == spec_normalize_wiki(wiki@),
    {
        let v = chars_of(wiki);
        let lowered = crate::strutil::lower_chars(v.as_slice());
        let ghost lv = wiki@.map_values(|c: char| to_lower(c));
        let n = lowered.len();
        let mut out: Vec<char> = Vec::new();
        proof {
            assert(lv.take(0) =~= Seq::<char>::empty());
            assert(lv.take(0).filter(|c: char| is_wiki_name_char(c)) =~= Seq::<char>::empty());
        }
        let mut i: usize = 0;
        while i < n
            invariant
                n == lv.len(),
                lv == wiki@.map_values(|c: char| to_lower(c)),
                lowered@ == lv,
                i <= n,
                out@ == lv.take(i as int).filter(|c: char| is_wiki_name_char(c)),
            decreases n - i,
        {
            let ghost pre = out@;
            let c = lowered[i];
            if ('a' <= c && c <= 'z') || c == '_' {
                out.push(c);
            }
            i += 1;
            proof {
                let t = lv.take(i as int);
                assert(t.drop_last() =~= lv.take(i - 1));
                assert(t.last() == lv[i - 1]);
                reveal(Seq::filter);
                assert(out@ =~= t.filter(|c2: char| is_wiki_name_char(c2)));
            }
        }
        proof {
            assert(lv.take(n as int) =~= lv);
        }
        string_of(out.as_slice())
    }

    /// A new batch, with the source wiki's name normalized.
    pub fn new(wiki_from: &str, titles: Vec<String>) -> (r: ChangeWiki)
        ensures
            r.wiki_from@ == spec_normalize_wiki(wiki_from@),
            r.titles == titles,
    {
        ChangeWiki { wiki_from: Self::normalize_wiki(wiki_from), titles }
    }
}

} // verus!
