//! Date handling for the pattern generator: parsing the knowledge base's
//! `[+-]YYYY-MM-DD...` time text and spelling a day in several locale
//! conventions.

use vstd::prelude::*;

use crate::strutil::{
    chars_eq, chars_of, digit_char, is_digit, small_num_chars, small_num_vec, string_of,
    subrange_vec, two_digit_chars, two_digit_vec,
};

verus! {

/// Number of leading ASCII digits of `s`.
pub open spec fn leading_digits(s: Seq<char>) -> int
    decreases s.len(),
{
    if s.len() > 0 && is_digit(s[0]) {
        1 + leading_digits(s.skip(1))
    } else {
        0
    }
}

/// `d` without leading zeros; an all-zero run keeps one `0`.
pub open spec fn strip_leading_zeros(d: Seq<char>) -> Seq<char>
    decreases d.len(),
{
    if d.len() > 1 && d[0] == '0' {
        strip_leading_zeros(d.skip(1))
    } else {
        d
    }
}

/// Parse the front of a time text: an optional sign, the year digits, and
/// two-digit month and day separated by `-`. The year keeps no leading
/// zeros.
pub open spec fn spec_parse_time(t: Seq<char>) -> Option<(Seq<char>, Seq<char>, Seq<char>)> {
    let s = if t.len() > 0 && (t[0] == '+' || t[0] == '-') {
        t.skip(1)
    } else {
        t
    };
    let d = leading_digits(s);
    if 1 <= d && d + 6 <= s.len() && s[d] == '-' && is_digit(s[d + 1]) && is_digit(
        s[d + 2],
    ) && s[d + 3] == '-' && is_digit(s[d + 4]) && is_digit(s[d + 5]) {
        Option::Some(
            (
                strip_leading_zeros(s.take(d)),
                s.subrange(d + 1, d + 3),
                s.subrange(d + 4, d + 6),
            ),
        )
    } else {
        Option::None
    }
}

/// Count the digits at and after position `from`.
fn count_digits_from(s: &[char], from: usize) -> (r: usize)
    requires
        from <= s@.len(),
    ensures
        r == leading_digits(s@.skip(from as int)),
        from + r <= s@.len(),
{
    let n = s.len();
    let mut k: usize = from;
    while k < n && crate::strutil::digit_char(s[k])
        invariant
            n == s@.len(),
            from <= k <= n,
            leading_digits(s@.skip(from as int)) == (k - from) + leading_digits(
                s@.skip(k as int),
            ),
        decreases n - k,
    {
        let ghost rest = s@.skip(k as int);
        assert(rest[0] == s@[k as int]);
        k += 1;
        proof {
            assert(rest.skip(1) =~= s@.skip(k as int));
            assert(leading_digits(rest) == 1 + leading_digits(s@.skip(k as int)));
        }
    }
    proof {
        let rest = s@.skip(k as int);
        if k < n {
            assert(rest[0] == s@[k as int]);
            assert(leading_digits(rest) == 0);
        } else {
            assert(rest.len() == 0);
            assert(leading_digits(rest) == 0);
        }
    }
    k - from
}

/// Strip the leading zeros of a digit buffer, keeping a final lone zero.
fn strip_zeros(d: &[char]) -> (r: Vec<char>)
    ensures
        r@ == strip_leading_zeros(d@),
{
    let n = d.len();
    let mut a: usize = 0;
    proof {
        assert(d@.skip(0) =~= d@);
    }
    while a + 1 < n && d[a] == '0'
        invariant
            n == d@.len(),
            a + 1 <= n || n == 0,
            a <= n,
            strip_leading_zeros(d@) == strip_leading_zeros(d@.skip(a as int)),
        decreases n - a,
    {
        let ghost rest = d@.skip(a as int);
        assert(rest[0] == d@[a as int]);
        assert(rest.len() == n - a);
        a += 1;
        proof {
            assert(rest.skip(1) =~= d@.skip(a as int));
            assert(strip_leading_zeros(rest) == strip_leading_zeros(d@.skip(a as int)));
        }
    }
    let r = subrange_vec(d, a, n);
    proof {
        let rest = d@.skip(a as int);
        assert(rest =~= d@.subrange(a as int, n as int));
        if a + 1 < n {
            assert(rest[0] != '0');
            assert(strip_leading_zeros(rest) == rest);
        } else {
            assert(rest.len() <= 1);
            assert(strip_leading_zeros(rest) == rest);
        }
    }
    r
}

/// Parse the front of a time text into year, month and day buffers.
pub fn parse_time_text(t: &[char]) -> (r: Option<(Vec<char>, Vec<char>, Vec<char>)>)
    ensures
        match r {
            Some(p) => spec_parse_time(t@) == Option::Some((p.0@, p.1@, p.2@)),
            None => spec_parse_time(t@) is None,
        },
{
    let n = t.len();
    let start: usize = if n > 0 && (t[0] == '+' || t[0] == '-') {
        1
    } else {
        0
    };
    let ghost s = if t@.len() > 0 && (t@[0] == '+' || t@[0] == '-') {
        t@.skip(1)
    } else {
        t@
    };
    proof {
        if start == 1 {
            assert(s =~= t@.skip(1));
        } else {
            assert(t@.skip(0) =~= t@);
        }
        assert(s =~= t@.skip(start as int));
    }
    let d = count_digits_from(t, start);
    proof {
        assert(t@.skip(start as int) =~= s);
        assert(leading_digits(s) == d);
    }
    if d < 1 || n - start < 6 || n - start - 6 < d {
        proof {
            assert(s.len() == n - start);
            assert(!(1 <= leading_digits(s) && leading_digits(s) + 6 <= s.len()));
        }
        return None;
    }
    let p = start + d;
    proof {
        assert(s[d as int] == t@[p as int]);
        assert(s[d + 1] == t@[p + 1]);
        assert(s[d + 2] == t@[p + 2]);
        assert(s[d + 3] == t@[p + 3]);
        assert(s[d + 4] == t@[p + 4]);
        assert(s[d + 5] == t@[p + 5]);
    }
    if t[p] == '-' && digit_char(t[p + 1]) && digit_char(t[p + 2]) && t[p + 3] == '-'
        && digit_char(t[p + 4]) && digit_char(t[p + 5]) {
        let year_digits = subrange_vec(t, start, p);
        proof {
            assert(year_digits@ =~= s.take(d as int));
        }
        let year = strip_zeros(year_digits.as_slice());
        let month = subrange_vec(t, p + 1, p + 3);
        let day = subrange_vec(t, p + 4, p + 6);
        proof {
            assert(month@ =~= s.subrange(d + 1, d + 3));
            assert(day@ =~= s.subrange(d + 4, d + 6));
        }
        Some((year, month, day))
    } else {
        None
    }
}

/// Long English month name, or nothing for a month outside one to twelve.
pub open spec fn month_name_en(m: int) -> Seq<char> {
    if m == 1 { "January"@ }
    else if m == 2 { "February"@ }
    else if m == 3 { "March"@ }
    else if m == 4 { "April"@ }
    else if m == 5 { "May"@ }
    else if m == 6 { "June"@ }
    else if m == 7 { "July"@ }
    else if m == 8 { "August"@ }
    else if m == 9 { "September"@ }
    else if m == 10 { "October"@ }
    else if m == 11 { "November"@ }
    else if m == 12 { "December"@ }
    else { ""@ }
}

/// Abbreviated English month name: the first three characters of the long
/// name.
pub open spec fn month_short_en(m: int) -> Seq<char> {
    if m == 1 { "Jan"@ }
    else if m == 2 { "Feb"@ }
    else if m == 3 { "Mar"@ }
    else if m == 4 { "Apr"@ }
    else if m == 5 { "May"@ }
    else if m == 6 { "Jun"@ }
    else if m == 7 { "Jul"@ }
    else if m == 8 { "Aug"@ }
    else if m == 9 { "Sep"@ }
    else if m == 10 { "Oct"@ }
    else if m == 11 { "Nov"@ }
    else if m == 12 { "Dec"@ }
    else { ""@ }
}

/// Long German month name, or nothing for a month outside one to twelve.
pub open spec fn month_name_de(m: int) -> Seq<char> {
    if m == 1 { "Januar"@ }
    else if m == 2 { "Februar"@ }
    else if m == 3 { "März"@ }
    else if m == 4 { "April"@ }
    else if m == 5 { "Mai"@ }
    else if m == 6 { "Juni"@ }
    else if m == 7 { "Juli"@ }
    else if m == 8 { "August"@ }
    else if m == 9 { "September"@ }
    else if m == 10 { "Oktober"@ }
    else if m == 11 { "November"@ }
    else if m == 12 { "Dezember"@ }
    else { ""@ }
}

/// Abbreviated German month name: the first three bytes of the long name,
/// which for March is the two characters `Mä`.
pub open spec fn month_short_de(m: int) -> Seq<char> {
    if m == 1 { "Jan"@ }
    else if m == 2 { "Feb"@ }
    else if m == 3 { "Mä"@ }
    else if m == 4 { "Apr"@ }
    else if m == 5 { "Mai"@ }
    else if m == 6 { "Jun"@ }
    else if m == 7 { "Jul"@ }
    else if m == 8 { "Aug"@ }
    else if m == 9 { "Sep"@ }
    else if m == 10 { "Okt"@ }
    else if m == 11 { "Nov"@ }
    else if m == 12 { "Dez"@ }
    else { ""@ }
}

/// Long French month name, or nothing for a month outside one to twelve.
pub open spec fn month_name_fr(m: int) -> Seq<char> {
    if m == 1 { "janvier"@ }
    else if m == 2 { "février"@ }
    else if m == 3 { "mars"@ }
    else if m == 4 { "avril"@ }
    else if m == 5 { "mai"@ }
    else if m == 6 { "juin"@ }
    else if m == 7 { "juillet"@ }
    else if m == 8 { "août"@ }
    else if m == 9 { "septembre"@ }
    else if m == 10 { "octobre"@ }
    else if m == 11 { "novembre"@ }
    else if m == 12 { "décembre"@ }
    else { ""@ }
}

/// The date spellings for one language: first the ISO form, then the
/// locale-specific renderings (English long and abbreviated month forms;
/// German month-name and numeric forms, unpadded and padded; the French
/// long form; generic numeric separators elsewhere).
pub open spec fn spec_locale_dates(
    lang: Seq<char>,
    year: Seq<char>,
    m: int,
    d: int,
) -> Seq<Seq<char>> {
    let iso = year + "-"@ + two_digit_chars(m) + "-"@ + two_digit_chars(d);
    let rest = if lang == "en"@ {
        seq![
            month_name_en(m) + " "@ + small_num_chars(d) + ", "@ + year,
            month_short_en(m) + " "@ + small_num_chars(d) + ", "@ + year,
        ]
    } else if lang == "de"@ {
        seq![
            small_num_chars(d) + ". "@ + month_name_de(m) + " "@ + year,
            small_num_chars(d) + ". "@ + month_short_de(m) + " "@ + year,
            two_digit_chars(d) + ". "@ + month_name_de(m) + " "@ + year,
            two_digit_chars(d) + ". "@ + month_short_de(m) + " "@ + year,
            small_num_chars(d) + ". "@ + small_num_chars(m) + ". "@ + year,
            small_num_chars(d) + "."@ + small_num_chars(m) + "."@ + year,
            two_digit_chars(d) + ". "@ + two_digit_chars(m) + ". "@ + year,
            two_digit_chars(d) + "."@ + two_digit_chars(m) + "."@ + year,
        ]
    } else if lang == "fr"@ {
        seq![small_num_chars(d) + " "@ + month_name_fr(m) + " "@ + year]
    } else {
        seq![
            small_num_chars(d) + ". "@ + small_num_chars(m) + ". "@ + year,
            small_num_chars(d) + "."@ + small_num_chars(m) + "."@ + year,
            small_num_chars(d) + "/"@ + small_num_chars(m) + "/"@ + year,
            two_digit_chars(d) + ". "@ + two_digit_chars(m) + ". "@ + year,
            two_digit_chars(d) + "."@ + two_digit_chars(m) + "."@ + year,
            two_digit_chars(d) + "/"@ + two_digit_chars(m) + "/"@ + year,
        ]
    };
    seq![iso] + rest
}

/// Long month name for the language tables, executable form.
fn month_long(lang_en: bool, lang_de: bool, m: u32) -> (r: Vec<char>)
    ensures
        lang_en ==> r@ == month_name_en(m as int),
        !lang_en && lang_de ==> r@ == month_name_de(m as int),
        !lang_en && !lang_de ==> r@ == month_name_fr(m as int),
{
    if lang_en {
        match m {
            1 => chars_of("January"),
            2 => chars_of("February"),
            3 => chars_of("March"),
            4 => chars_of("April"),
            5 => chars_of("May"),
            6 => chars_of("June"),
            7 => chars_of("July"),
            8 => chars_of("August"),
            9 => chars_of("September"),
            10 => chars_of("October"),
            11 => chars_of("November"),
            12 => chars_of("December"),
            _ => chars_of(""),
        }
    } else if lang_de {
        match m {
            1 => chars_of("Januar"),
            2 => chars_of("Februar"),
            3 => chars_of("März"),
            4 => chars_of("April"),
            5 => chars_of("Mai"),
            6 => chars_of("Juni"),
            7 => chars_of("Juli"),
            8 => chars_of("August"),
            9 => chars_of("September"),
            10 => chars_of("Oktober"),
            11 => chars_of("November"),
            12 => chars_of("Dezember"),
            _ => chars_of(""),
        }
    } else {
        match m {
            1 => chars_of("janvier"),
            2 => chars_of("février"),
            3 => chars_of("mars"),
            4 => chars_of("avril"),
            5 => chars_of("mai"),
            6 => chars_of("juin"),
            7 => chars_of("juillet"),
            8 => chars_of("août"),
            9 => chars_of("septembre"),
            10 => chars_of("octobre"),
            11 => chars_of("novembre"),
            12 => chars_of("décembre"),
            _ => chars_of(""),
        }
    }
}

/// Abbreviated month name for the language tables, executable form.
fn month_short(lang_en: bool, m: u32) -> (r: Vec<char>)
    ensures
        lang_en ==> r@ == month_short_en(m as int),
        !lang_en ==> r@ == month_short_de(m as int),
{
    if lang_en {
        match m {
            1 => chars_of("Jan"),
            2 => chars_of("Feb"),
            3 => chars_of("Mar"),
            4 => chars_of("Apr"),
            5 => chars_of("May"),
            6 => chars_of("Jun"),
            7 => chars_of("Jul"),
            8 => chars_of("Aug"),
            9 => chars_of("Sep"),
            10 => chars_of("Oct"),
            11 => chars_of("Nov"),
            12 => chars_of("Dec"),
            _ => chars_of(""),
        }
    } else {
        match m {
            1 => chars_of("Jan"),
            2 => chars_of("Feb"),
            3 => chars_of("Mä"),
            4 => chars_of("Apr"),
            5 => chars_of("Mai"),
            6 => chars_of("Jun"),
            7 => chars_of("Jul"),
            8 => chars_of("Aug"),
            9 => chars_of("Sep"),
            10 => chars_of("Okt"),
            11 => chars_of("Nov"),
            12 => chars_of("Dez"),
            _ => chars_of(""),
        }
    }
}

/// Join pieces into one pattern string.
pub fn join5(a: &[char], b: &[char], c: &[char], d: &[char], e: &[char]) -> (r: String)
    ensures
        r@ == a@ + b@ + c@ + d@ + e@,
{
    let mut out: Vec<char> = Vec::new();
    out.extend_from_slice(a);
    out.extend_from_slice(b);
    out.extend_from_slice(c);
    out.extend_from_slice(d);
    out.extend_from_slice(e);
    proof {
        assert(out@ =~= a@ + b@ + c@ + d@ + e@);
    }
    string_of(out.as_slice())
}

/// The date spellings for one language, ISO form first.
pub fn add_locale_specific_dates(language: &str, year: &[char], month_num: u32, day_num: u32)
    -> (r: Vec<String>)
    requires
        month_num < 100,
        day_num < 100,
    ensures
        r@.map_values(|s: String| s@) == spec_locale_dates(
            language@,
            year@,
            month_num as int,
            day_num as int,
        ),
{
    let lv = chars_of(language);
    let en_code = chars_of("en");
    let de_code = chars_of("de");
    let fr_code = chars_of("fr");
    let is_en = chars_eq(lv.as_slice(), en_code.as_slice());
    let is_de = chars_eq(lv.as_slice(), de_code.as_slice());
    let is_fr = chars_eq(lv.as_slice(), fr_code.as_slice());

    let m2 = two_digit_vec(month_num);
    let d2 = two_digit_vec(day_num);
    let m1 = small_num_vec(month_num);
    let d1 = small_num_vec(day_num);
    let dash = chars_of("-");
    let empty = chars_of("");
    let space = chars_of(" ");
    let comma_space = chars_of(", ");
    let dot_space = chars_of(". ");
    let dot = chars_of(".");
    let slash = chars_of("/");

    let mut out: Vec<String> = Vec::new();
    let iso = join5(year, dash.as_slice(), m2.as_slice(), dash.as_slice(), d2.as_slice());
    out.push(iso);

    if is_en {
        let long_name = month_long(true, false, month_num);
        let short_name = month_short(true, month_num);
        out.push(join5(
            long_name.as_slice(),
            space.as_slice(),
            d1.as_slice(),
            comma_space.as_slice(),
            year,
        ));
        out.push(join5(
            short_name.as_slice(),
            space.as_slice(),
            d1.as_slice(),
            comma_space.as_slice(),
            year,
        ));
    } else if is_de {
        let long_name = month_long(false, true, month_num);
        let short_name = month_short(false, month_num);
        out.push(join5(
            d1.as_slice(),
            dot_space.as_slice(),
            long_name.as_slice(),
            space.as_slice(),
            year,
        ));
        out.push(join5(
            d1.as_slice(),
            dot_space.as_slice(),
            short_name.as_slice(),
            space.as_slice(),
            year,
        ));
        out.push(join5(
            d2.as_slice(),
            dot_space.as_slice(),
            long_name.as_slice(),
            space.as_slice(),
            year,
        ));
        out.push(join5(
            d2.as_slice(),
            dot_space.as_slice(),
            short_name.as_slice(),
            space.as_slice(),
            year,
        ));
        out.push(join5(
            d1.as_slice(),
            dot_space.as_slice(),
            m1.as_slice(),
            dot_space.as_slice(),
            year,
        ));
        out.push(join5(d1.as_slice(), dot.as_slice(), m1.as_slice(), dot.as_slice(), year));
        out.push(join5(
            d2.as_slice(),
            dot_space.as_slice(),
            m2.as_slice(),
            dot_space.as_slice(),
            year,
        ));
        out.push(join5(d2.as_slice(), dot.as_slice(), m2.as_slice(), dot.as_slice(), year));
    } else if is_fr {
        let long_name = month_long(false, false, month_num);
        out.push(join5(
            d1.as_slice(),
            space.as_slice(),
            long_name.as_slice(),
            space.as_slice(),
            year,
        ));
    } else {
        out.push(join5(
            d1.as_slice(),
            dot_space.as_slice(),
            m1.as_slice(),
            dot_space.as_slice(),
            year,
        ));
        out.push(join5(d1.as_slice(), dot.as_slice(), m1.as_slice(), dot.as_slice(), year));
        out.push(join5(
            d1.as_slice(),
            slash.as_slice(),
            m1.as_slice(),
            slash.as_slice(),
            year,
        ));
        out.push(join5(
            d2.as_slice(),
            dot_space.as_slice(),
            m2.as_slice(),
            dot_space.as_slice(),
            year,
        ));
        out.push(join5(d2.as_slice(), dot.as_slice(), m2.as_slice(), dot.as_slice(), year));
        out.push(join5(
            d2.as_slice(),
            slash.as_slice(),
            m2.as_slice(),
            slash.as_slice(),
            year,
        ));
    }
    proof {
        assert(out@.map_values(|s: String| s@) =~= spec_locale_dates(
            language@,
            year@,
            month_num as int,
            day_num as int,
        ));
    }
    out
}

} // verus!
