//! The language guesser: classifies normalized text into one of a small
//! fixed set of language codes by counting occurrences of short function
//! words.
//!
//! A word of the text is a maximal run of word characters (see
//! [`crate::strutil::is_word_char`]). The guess is the language whose count
//! is strictly highest and above a fixed floor; ties and low-signal text
//! fall back to English.

use vstd::prelude::*;

use crate::strutil::{chars_eq, chars_of, is_word_char, subrange_vec, word_char};

verus! {

/// Number of leading word characters of `s`.
pub open spec fn leading_word_chars(s: Seq<char>) -> int
    decreases s.len(),
{
    if s.len() > 0 && is_word_char(s[0]) {
        1 + leading_word_chars(s.skip(1))
    } else {
        0
    }
}

/// A run length is never negative.
pub proof fn lemma_leading_word_chars_nonneg(s: Seq<char>)
    ensures
        leading_word_chars(s) >= 0,
    decreases s.len(),
{
    if s.len() > 0 && is_word_char(s[0]) {
        lemma_leading_word_chars_nonneg(s.skip(1));
    }
}

/// How many maximal word runs of `s` equal a member of `words`.
pub open spec fn word_count(s: Seq<char>, words: Seq<Seq<char>>) -> int
    decreases s.len(),
{
    if s.len() == 0 {
        0
    } else if is_word_char(s[0]) {
        let w = leading_word_chars(s);
        if 1 <= w && w <= s.len() {
            (if words.contains(s.take(w)) {
                1int
            } else {
                0int
            }) + word_count(s.skip(w), words)
        } else {
            word_count(s.skip(1), words)
        }
    } else {
        word_count(s.skip(1), words)
    }
}

/// English function words.
pub open spec fn en_words() -> Seq<Seq<char>> {
    seq!["he"@, "she"@, "it"@, "is"@, "was"@, "the"@, "a"@, "an"@]
}

/// German function words.
pub open spec fn de_words() -> Seq<Seq<char>> {
    seq!["er"@, "sie"@, "es"@, "das"@, "ein"@, "eine"@, "war"@, "ist"@]
}

/// Italian function words.
pub open spec fn it_words() -> Seq<Seq<char>> {
    seq!["è"@, "una"@, "della"@, "la"@, "nel"@, "si"@, "su"@, "una"@, "di"@]
}

/// French function words.
pub open spec fn fr_words() -> Seq<Seq<char>> {
    seq!["est"@, "un"@, "une"@, "et"@, "la"@, "il"@, "a"@, "de"@, "par"@]
}

/// Spanish function words.
pub open spec fn es_words() -> Seq<Seq<char>> {
    seq!["el"@, "es"@, "un"@, "de"@, "a"@, "la"@, "es"@, "conlas"@, "dos"@]
}

/// The guess, given the five counts: the strictly highest count above the
/// floor of five wins; otherwise English.
pub open spec fn pick_language(en: int, de: int, it: int, fr: int, es: int) -> Seq<char> {
    if en > 5 && en > de && en > it && en > fr && en > es {
        "en"@
    } else if de > 5 && de > en && de > it && de > fr && de > es {
        "de"@
    } else if it > 5 && it > en && it > de && it > fr && it > es {
        "it"@
    } else if fr > 5 && fr > en && fr > de && fr > it && fr > es {
        "fr"@
    } else if es > 5 && es > en && es > de && es > it && es > fr {
        "es"@
    } else {
        "en"@
    }
}

/// What [`guess_page_language_from_text`] returns.
pub open spec fn spec_guess_language(text: Seq<char>) -> Seq<char> {
    pick_language(
        word_count(text, en_words()),
        word_count(text, de_words()),
        word_count(text, it_words()),
        word_count(text, fr_words()),
        word_count(text, es_words()),
    )
}

/// Count the word characters at and after position `from`.
fn count_word_chars_from(s: &[char], from: usize) -> (r: usize)
    requires
        from <= s@.len(),
    ensures
        r == leading_word_chars(s@.skip(from as int)),
        from + r <= s@.len(),
{
    let n = s.len();
    let mut k: usize = from;
    while k < n && word_char(s[k])
        invariant
            n == s@.len(),
            from <= k <= n,
            leading_word_chars(s@.skip(from as int)) == (k - from) + leading_word_chars(
                s@.skip(k as int),
            ),
        decreases n - k,
    {
        let ghost rest = s@.skip(k as int);
        assert(rest[0] == s@[k as int]);
        k += 1;
        proof {
            assert(rest.skip(1) =~= s@.skip(k as int));
            assert(leading_word_chars(rest) == 1 + leading_word_chars(s@.skip(k as int)));
        }
    }
    proof {
        let rest = s@.skip(k as int);
        if k < n {
            assert(rest[0] == s@[k as int]);
            assert(!is_word_char(rest[0]));
            assert(leading_word_chars(rest) == 0);
        } else {
            assert(rest.len() == 0);
            assert(leading_word_chars(rest) == 0);
        }
    }
    k - from
}

/// Whether `run` equals a member of `words`.
fn word_list_contains(words: &Vec<Vec<char>>, run: &[char]) -> (r: bool)
    ensures
        r == words@.map_values(|w: Vec<char>| w@).contains(run@),
{
    let n = words.len();
    let ghost wv = words@.map_values(|w: Vec<char>| w@);
    let mut i: usize = 0;
    while i < n
        invariant
            n == wv.len(),
            wv == words@.map_values(|w: Vec<char>| w@),
            n == words@.len(),
            i <= n,
            forall|k: int| 0 <= k < i ==> wv[k] != run@,
        decreases n - i,
    {
        assert(wv[i as int] == words@[i as int]@);
        if chars_eq(words[i].as_slice(), run) {
            assert(wv.contains(run@));
            return true;
        }
        i += 1;
    }
    false
}

/// Count the maximal word runs of `s` that equal a member of `words`.
fn count_word_list(s: &[char], words: &Vec<Vec<char>>) -> (r: usize)
    ensures
        r == word_count(s@, words@.map_values(|w: Vec<char>| w@)),
{
    let n = s.len();
    let ghost wv = words@.map_values(|w: Vec<char>| w@);
    let mut count: usize = 0;
    let mut i: usize = 0;
    proof {
        assert(s@.skip(0) =~= s@);
    }
    while i < n
        invariant
            n == s@.len(),
            wv == words@.map_values(|w: Vec<char>| w@),
            i <= n,
            count <= i,
            word_count(s@, wv) == count + word_count(s@.skip(i as int), wv),
        decreases n - i,
    {
        let ghost pre = count as int;
        let ghost rest = s@.skip(i as int);
        assert(rest.len() == n - i);
        assert(rest[0] == s@[i as int]);
        if word_char(s[i]) {
            let w = count_word_chars_from(s, i);
            proof {
                assert(s@.skip(i as int) =~= rest);
                assert(leading_word_chars(rest) == w);
                lemma_leading_word_chars_nonneg(rest.skip(1));
                assert(w >= 1);
            }
            let run = subrange_vec(s, i, i + w);
            proof {
                assert(run@ =~= rest.take(w as int));
            }
            let hit = word_list_contains(words, run.as_slice());
            if hit {
                count += 1;
            }
            i = i + w;
            proof {
                assert(rest.skip(w as int) =~= s@.skip(i as int));
                assert(word_count(rest, wv) == (if wv.contains(rest.take(w as int)) {
                    1int
                } else {
                    0int
                }) + word_count(s@.skip(i as int), wv));
            }
        } else {
            i += 1;
            proof {
                assert(rest.skip(1) =~= s@.skip(i as int));
                assert(word_count(rest, wv) == word_count(s@.skip(i as int), wv));
            }
        }
    }
    proof {
        assert(s@.skip(n as int) =~= Seq::<char>::empty());
        assert(word_count(Seq::<char>::empty(), wv) == 0);
    }
    count
}

/// Build the word list for one language from its literal words.
fn push_word(words: &mut Vec<Vec<char>>, w: &str)
    ensures
        final(words)@.map_values(|v: Vec<char>| v@) == old(words)@.map_values(
            |v: Vec<char>| v@,
        ) + seq![w@],
{
    let ghost pre = words@;
    let v = chars_of(w);
    words.push(v);
    proof {
        assert(words@ =~= pre.push(v));
        assert(words@.map_values(|x: Vec<char>| x@) =~= pre.map_values(|x: Vec<char>| x@)
            + seq![w@]);
    }
}

/// Classify normalized text into one of `en`, `de`, `it`, `fr`, `es`.
pub fn guess_page_language_from_text(text: &str) -> (r: String)
    ensures
        r@ == spec_guess_language(text@),
{
    let tv = chars_of(text);

    let mut en: Vec<Vec<char>> = Vec::new();
    push_word(&mut en, "he");
    push_word(&mut en, "she");
    push_word(&mut en, "it");
    push_word(&mut en, "is");
    push_word(&mut en, "was");
    push_word(&mut en, "the");
    push_word(&mut en, "a");
    push_word(&mut en, "an");
    proof {
        assert(en@.map_values(|v: Vec<char>| v@) =~= en_words());
    }
    let n_en = count_word_list(tv.as_slice(), &en);

    let mut de: Vec<Vec<char>> = Vec::new();
    push_word(&mut de, "er");
    push_word(&mut de, "sie");
    push_word(&mut de, "es");
    push_word(&mut de, "das");
    push_word(&mut de, "ein");
    push_word(&mut de, "eine");
    push_word(&mut de, "war");
    push_word(&mut de, "ist");
    proof {
        assert(de@.map_values(|v: Vec<char>| v@) =~= de_words());
    }
    let n_de = count_word_list(tv.as_slice(), &de);

    let mut it: Vec<Vec<char>> = Vec::new();
    push_word(&mut it, "è");
    push_word(&mut it, "una");
    push_word(&mut it, "della");
    push_word(&mut it, "la");
    push_word(&mut it, "nel");
    push_word(&mut it, "si");
    push_word(&mut it, "su");
    push_word(&mut it, "una");
    push_word(&mut it, "di");
    proof {
        assert(it@.map_values(|v: Vec<char>| v@) =~= it_words());
    }
    let n_it = count_word_list(tv.as_slice(), &it);

    let mut fr: Vec<Vec<char>> = Vec::new();
    push_word(&mut fr, "est");
    push_word(&mut fr, "un");
    push_word(&mut fr, "une");
    push_word(&mut fr, "et");
    push_word(&mut fr, "la");
    push_word(&mut fr, "il");
    push_word(&mut fr, "a");
    push_word(&mut fr, "de");
    push_word(&mut fr, "par");
    proof {
        assert(fr@.map_values(|v: Vec<char>| v@) =~= fr_words());
    }
    let n_fr = count_word_list(tv.as_slice(), &fr);

    let mut es: Vec<Vec<char>> = Vec::new();
    push_word(&mut es, "el");
    push_word(&mut es, "es");
    push_word(&mut es, "un");
    push_word(&mut es, "de");
    push_word(&mut es, "a");
    push_word(&mut es, "la");
    push_word(&mut es, "es");
    push_word(&mut es, "conlas");
    push_word(&mut es, "dos");
    proof {
        assert(es@.map_values(|v: Vec<char>| v@) =~= es_words());
    }
    let n_es = count_word_list(tv.as_slice(), &es);

    if n_en > 5 && n_en > n_de && n_en > n_it && n_en > n_fr && n_en > n_es {
        "en".to_owned()
    } else if n_de > 5 && n_de > n_en && n_de > n_it && n_de > n_fr && n_de > n_es {
        "de".to_owned()
    } else if n_it > 5 && n_it > n_en && n_it > n_de && n_it > n_fr && n_it > n_es {
        "it".to_owned()
    } else if n_fr > 5 && n_fr > n_en && n_fr > n_de && n_fr > n_it && n_fr > n_es {
        "fr".to_owned()
    } else if n_es > 5 && n_es > n_en && n_es > n_de && n_es > n_it && n_es > n_fr {
        "es".to_owned()
    } else {
        "en".to_owned()
    }
}

} // verus!
