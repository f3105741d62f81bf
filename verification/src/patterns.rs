//! The pattern generator: the search strings for one statement's value,
//! aimed at a document of a given language.
//!
//! Time values become the ISO spelling plus the locale spellings of the
//! document's language; string and monolingual values become their literal
//! text; linked entities become their label and aliases in that language,
//! escaped for search; quantities, coordinates and unknown values yield no
//! patterns.

use vstd::prelude::*;

use crate::dates::{
    add_locale_specific_dates, join5, parse_time_text, spec_locale_dates, spec_parse_time,
};
use crate::model::{
    entities_view, spec_first_term, spec_lookup, spec_term_values, DataValue, DataValueV,
    Entity, EntityStatement, EntityStatementV, EntityV,
};
use crate::referee::{no_ref_properties, Referee};
use crate::regex_calls::{regex_escape_str, regex_escaped};
use crate::strutil::{chars_of, contains_string, string_of, trim_chars, trimmed, two_digit_val};

verus! {

/// Label and alias texts of a linked entity, labels first: the
/// language-neutral label, the label in the target language, then the
/// aliases in the target language.
pub open spec fn spec_alias_candidates(e: EntityV, lang: Seq<char>) -> Seq<Seq<char>> {
    let l0 = match spec_first_term(e.labels, "mul"@) {
        Option::Some(l) => seq![l],
        Option::None => Seq::<Seq<char>>::empty(),
    };
    let l1 = match spec_first_term(e.labels, lang) {
        Option::Some(l) => seq![l],
        Option::None => Seq::<Seq<char>>::empty(),
    };
    l0 + l1 + spec_term_values(e.aliases, lang)
}

/// The candidate texts trimmed, those shorter than three characters
/// dropped, the rest escaped for search.
pub open spec fn spec_alias_patterns(items: Seq<Seq<char>>) -> Seq<Seq<char>>
    decreases items.len(),
{
    if items.len() == 0 {
        Seq::<Seq<char>>::empty()
    } else {
        let t = trimmed(items[0]);
        (if t.len() >= 3 {
            seq![regex_escaped(t)]
        } else {
            Seq::<Seq<char>>::empty()
        }) + spec_alias_patterns(items.skip(1))
    }
}

/// The search patterns for one statement's value in one language.
pub open spec fn spec_statement_patterns(
    st: EntityStatementV,
    lang: Seq<char>,
    entities: Seq<EntityV>,
) -> Seq<Seq<char>> {
    if no_ref_properties().contains(st.property) {
        Seq::<Seq<char>>::empty()
    } else {
        match st.claim.main.value {
            Option::None => Seq::<Seq<char>>::empty(),
            Option::Some(v) => match v {
                DataValueV::Time { time, precision } => match spec_parse_time(time) {
                    Option::Some(p) => if precision == 9 {
                        seq![p.0]
                    } else if precision == 11 {
                        seq![p.0 + "-"@ + p.1 + "-"@ + p.2] + spec_locale_dates(
                            lang,
                            p.0,
                            two_digit_val(p.1),
                            two_digit_val(p.2),
                        )
                    } else {
                        Seq::<Seq<char>>::empty()
                    },
                    Option::None => Seq::<Seq<char>>::empty(),
                },
                DataValueV::StringValue(s) => seq![s],
                DataValueV::Monolingual { language: _, text } => seq![text],
                DataValueV::EntityId(id) => match spec_lookup(entities, id) {
                    Option::Some(e) => spec_alias_patterns(spec_alias_candidates(e, lang)),
                    Option::None => Seq::<Seq<char>>::empty(),
                },
                _ => Seq::<Seq<char>>::empty(),
            },
        }
    }
}

/// A year-precision time value yields exactly the bare year string as its
/// only pattern.
pub proof fn lemma_year_precision_patterns(
    st: EntityStatementV,
    lang: Seq<char>,
    entities: Seq<EntityV>,
    t: Seq<char>,
    y: Seq<char>,
    mo: Seq<char>,
    dd: Seq<char>,
)
    requires
        !no_ref_properties().contains(st.property),
        st.claim.main.value == Option::Some(DataValueV::Time { time: t, precision: 9u32 }),
        spec_parse_time(t) == Option::Some((y, mo, dd)),
    ensures
        spec_statement_patterns(st, lang, entities) == seq![y],
{
}

/// A day-precision time value in English yields the ISO form first, then
/// the long-month and the abbreviated-month forms, each carrying the year
/// and the day.
pub proof fn lemma_day_precision_en_patterns(
    st: EntityStatementV,
    entities: Seq<EntityV>,
    t: Seq<char>,
    y: Seq<char>,
    mo: Seq<char>,
    dd: Seq<char>,
)
    requires
        !no_ref_properties().contains(st.property),
        st.claim.main.value == Option::Some(DataValueV::Time { time: t, precision: 11u32 }),
        spec_parse_time(t) == Option::Some((y, mo, dd)),
    ensures
        spec_statement_patterns(st, "en"@, entities).len() == 4,
        spec_statement_patterns(st, "en"@, entities)[1] == y + "-"@
            + crate::strutil::two_digit_chars(two_digit_val(mo)) + "-"@
            + crate::strutil::two_digit_chars(two_digit_val(dd)),
        spec_statement_patterns(st, "en"@, entities)[2] == crate::dates::month_name_en(
            two_digit_val(mo),
        ) + " "@ + crate::strutil::small_num_chars(two_digit_val(dd)) + ", "@ + y,
        spec_statement_patterns(st, "en"@, entities)[3] == crate::dates::month_short_en(
            two_digit_val(mo),
        ) + " "@ + crate::strutil::small_num_chars(two_digit_val(dd)) + ", "@ + y,
        crate::strutil::contains_sub(spec_statement_patterns(st, "en"@, entities)[1], y),
        crate::strutil::contains_sub(spec_statement_patterns(st, "en"@, entities)[2], y),
        crate::strutil::contains_sub(spec_statement_patterns(st, "en"@, entities)[3], y),
        crate::strutil::contains_sub(
            spec_statement_patterns(st, "en"@, entities)[1],
            crate::strutil::two_digit_chars(two_digit_val(dd)),
        ),
        crate::strutil::contains_sub(
            spec_statement_patterns(st, "en"@, entities)[2],
            crate::strutil::small_num_chars(two_digit_val(dd)),
        ),
        crate::strutil::contains_sub(
            spec_statement_patterns(st, "en"@, entities)[3],
            crate::strutil::small_num_chars(two_digit_val(dd)),
        ),
{
    let m = two_digit_val(mo);
    let d = two_digit_val(dd);
    let pats = spec_statement_patterns(st, "en"@, entities);
    let locale = spec_locale_dates("en"@, y, m, d);
    assert(pats == seq![y + "-"@ + mo + "-"@ + dd] + locale);
    let iso = y + "-"@ + crate::strutil::two_digit_chars(m) + "-"@
        + crate::strutil::two_digit_chars(d);
    let long_form = crate::dates::month_name_en(m) + " "@ + crate::strutil::small_num_chars(
        d,
    ) + ", "@ + y;
    let short_form = crate::dates::month_short_en(m) + " "@
        + crate::strutil::small_num_chars(d) + ", "@ + y;
    assert(locale == seq![iso] + seq![long_form, short_form]);
    assert(locale.len() == 3);
    assert(pats.len() == 4);
    assert(pats[1] == locale[0]);
    assert(pats[2] == locale[1]);
    assert(pats[3] == locale[2]);
    assert(locale[0] == iso && locale[1] == long_form && locale[2] == short_form);
    reveal_strlit("-");
    reveal_strlit(" ");
    reveal_strlit(", ");
    // the year stands at the front of the ISO form and at the end of both
    // month forms; the day follows its separator in each
    assert(iso.subrange(0, y.len() as int) =~= y);
    assert(crate::strutil::matches_at(iso, y, 0));
    let y_pos_long = long_form.len() - y.len();
    assert(long_form.subrange(y_pos_long as int, long_form.len() as int) =~= y);
    assert(crate::strutil::matches_at(long_form, y, y_pos_long as int));
    let y_pos_short = short_form.len() - y.len();
    assert(short_form.subrange(y_pos_short as int, short_form.len() as int) =~= y);
    assert(crate::strutil::matches_at(short_form, y, y_pos_short as int));
    let d2 = crate::strutil::two_digit_chars(d);
    let d_pos_iso = y.len() + 1 + 2 + 1;
    assert(iso.subrange(d_pos_iso as int, d_pos_iso as int + 2) =~= d2);
    assert(crate::strutil::matches_at(iso, d2, d_pos_iso as int));
    let d1 = crate::strutil::small_num_chars(d);
    let d_pos_long = crate::dates::month_name_en(m).len() + 1;
    assert(long_form.subrange(d_pos_long as int, d_pos_long as int + d1.len() as int) =~= d1);
    assert(crate::strutil::matches_at(long_form, d1, d_pos_long as int));
    let d_pos_short = crate::dates::month_short_en(m).len() + 1;
    assert(short_form.subrange(d_pos_short as int, d_pos_short as int + d1.len() as int) =~= d1);
    assert(crate::strutil::matches_at(short_form, d1, d_pos_short as int));
}

/// Trim, filter and escape the label and alias texts.
fn alias_patterns(items: &Vec<String>) -> (r: Vec<String>)
    ensures
        r@.map_values(|s: String| s@) == spec_alias_patterns(
            items@.map_values(|s: String| s@),
        ),
{
    let n = items.len();
    let ghost iv = items@.map_values(|s: String| s@);
    let mut out: Vec<String> = Vec::new();
    proof {
        assert(iv.skip(0) =~= iv);
        assert(out@.map_values(|s: String| s@) =~= Seq::<Seq<char>>::empty());
        assert(Seq::<Seq<char>>::empty() + spec_alias_patterns(iv) =~= spec_alias_patterns(
            iv,
        ));
    }
    let mut i: usize = 0;
    while i < n
        invariant
            n == iv.len(),
            iv == items@.map_values(|s: String| s@),
            n == items@.len(),
            i <= n,
            spec_alias_patterns(iv) == out@.map_values(|s: String| s@)
                + spec_alias_patterns(iv.skip(i as int)),
        decreases n - i,
    {
        let ghost pre = out@;
        let ghost rest = iv.skip(i as int);
        assert(rest[0] == iv[i as int]);
        assert(iv[i as int] == items@[i as int]@);
        let cs = chars_of(items[i].as_str());
        let t = trim_chars(cs.as_slice());
        if t.len() >= 3 {
            let ts = string_of(t.as_slice());
            let escaped = regex_escape_str(ts.as_str());
            out.push(escaped);
            proof {
                assert(out@ =~= pre.push(escaped));
                assert(out@.map_values(|s: String| s@) =~= pre.map_values(|s: String| s@)
                    + seq![regex_escaped(trimmed(rest[0]))]);
            }
        }
        i += 1;
        proof {
            assert(rest.skip(1) =~= iv.skip(i as int));
            let tail = spec_alias_patterns(iv.skip(i as int));
            let head = if trimmed(rest[0]).len() >= 3 {
                seq![regex_escaped(trimmed(rest[0]))]
            } else {
                Seq::<Seq<char>>::empty()
            };
            assert(spec_alias_patterns(rest) == head + tail);
            assert(pre.map_values(|s: String| s@) + (head + tail) =~= out@.map_values(
                |s: String| s@,
            ) + tail);
        }
    }
    proof {
        assert(iv.skip(n as int) =~= Seq::<Seq<char>>::empty());
        assert(out@.map_values(|s: String| s@) + Seq::<Seq<char>>::empty()
            =~= out@.map_values(|s: String| s@));
    }
    out
}

impl Referee {
    /// The search patterns for one statement, aimed at a document of the
    /// given language. Linked entities are looked up in `entities`; one
    /// that is not there yields no patterns.
    pub fn get_statement_search_patterns(
        &self,
        statement: &EntityStatement,
        language: &str,
        entities: &Vec<Entity>,
    ) -> (r: Vec<String>)
        requires
            self.wf(),
        ensures
            r@.map_values(|s: String| s@) == spec_statement_patterns(
                statement@,
                language@,
                entities_view(entities@),
            ),
    {
        let mut empty_out: Vec<String> = Vec::new();
        proof {
            assert(empty_out@.map_values(|s: String| s@) =~= Seq::<Seq<char>>::empty());
        }
        if contains_string(&self.no_refs_for_properties, &statement.property) {
            return empty_out;
        }
        match &statement.claim.main.value {
            Option::None => empty_out,
            Option::Some(DataValue::Time { time, precision }) => {
                let tc = chars_of(time.as_str());
                match parse_time_text(tc.as_slice()) {
                    Some(p) => {
                        let (year, month, day) = p;
                        if *precision == 9 {
                            let mut out: Vec<String> = Vec::new();
                            out.push(string_of(year.as_slice()));
                            proof {
                                assert(out@.map_values(|s: String| s@) =~= seq![year@]);
                            }
                            out
                        } else if *precision == 11 {
                            proof {
                                assert(crate::strutil::is_digit(month@[0])
                                    && crate::strutil::is_digit(month@[1]));
                                assert(crate::strutil::is_digit(day@[0])
                                    && crate::strutil::is_digit(day@[1]));
                            }
                            let dash = chars_of("-");
                            let nothing = chars_of("");
                            let iso = join5(
                                year.as_slice(),
                                dash.as_slice(),
                                month.as_slice(),
                                dash.as_slice(),
                                day.as_slice(),
                            );
                            let month_num = crate::strutil::parse_two_digits(
                                month.as_slice(),
                            );
                            let day_num = crate::strutil::parse_two_digits(day.as_slice());
                            let mut out: Vec<String> = Vec::new();
                            out.push(iso);
                            let mut locale = add_locale_specific_dates(
                                language,
                                year.as_slice(),
                                month_num,
                                day_num,
                            );
                            let ghost locale_v = locale@.map_values(|s: String| s@);
                            out.append(&mut locale);
                            proof {
                                assert(out@.map_values(|s: String| s@) =~= seq![year@ + "-"@
                                    + month@ + "-"@ + day@] + locale_v);
                            }
                            out
                        } else {
                            empty_out
                        }
                    },
                    None => empty_out,
                }
            },
            Option::Some(DataValue::StringValue(s)) => {
                let mut out: Vec<String> = Vec::new();
                out.push(s.clone());
                proof {
                    assert(out@.map_values(|q: String| q@) =~= seq![s@]);
                }
                out
            },
            Option::Some(DataValue::Monolingual { language: _, text }) => {
                let mut out: Vec<String> = Vec::new();
                out.push(text.clone());
                proof {
                    assert(out@.map_values(|q: String| q@) =~= seq![text@]);
                }
                out
            },
            Option::Some(DataValue::EntityId(id)) => {
                match crate::model::find_entity(entities, id.as_str()) {
                    Option::Some(e) => {
                        let mut items: Vec<String> = Vec::new();
                        let ghost e_v = e@;
                        match e.label_in("mul") {
                            Option::Some(l) => {
                                items.push(l);
                            },
                            Option::None => {},
                        }
                        match e.label_in(language) {
                            Option::Some(l) => {
                                items.push(l);
                            },
                            Option::None => {},
                        }
                        let mut al = e.aliases_in(language);
                        let ghost al_v = al@.map_values(|s: String| s@);
                        items.append(&mut al);
                        proof {
                            assert(items@.map_values(|s: String| s@)
                                =~= spec_alias_candidates(e_v, language@));
                        }
                        alias_patterns(&items)
                    },
                    Option::None => empty_out,
                }
            },
            Option::Some(DataValue::Quantity) => empty_out,
            Option::Some(DataValue::Coordinate) => empty_out,
            Option::Some(DataValue::Unknown) => empty_out,
        }
    }
}

} // verus!
