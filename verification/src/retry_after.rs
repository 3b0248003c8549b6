//! `Retry-After` header values: either a number of seconds or an HTTP date
//! (`Wed, 21 Oct 2025 07:28:00 GMT`), turned into a delay in seconds.
use vstd::prelude::*;
use crate::text::{
    chars_of, contains, contains_str, find_char, first_index_of, is_whitespace, is_ws,
    parse_u64_chars, parse_u64_spec, starts_with, starts_with_chars, string_of, sub_chars, to_lowercase,
    trim, trim_chars, unicode_lowercase,
};

verus! {

/// Length of the run of non-whitespace characters at the start of `s`.
pub open spec fn word_len(s: Seq<char>) -> nat
    decreases s.len(),
{
    if s.len() == 0 || is_ws(s[0]) {
        0
    } else {
        1 + word_len(s.drop_first())
    }
}

/// The words of `s` (`str::split_whitespace`): maximal runs of
/// non-whitespace characters, in order.
pub open spec fn words(s: Seq<char>) -> Seq<Seq<char>>
    decreases s.len(),
{
    if s.len() == 0 {
        Seq::empty()
    } else if is_ws(s[0]) {
        words(s.drop_first())
    } else {
        proof {
            lemma_word_len_bound(s);
        }
        seq![s.take(word_len(s) as int)] + words(s.skip(word_len(s) as int))
    }
}

pub proof fn lemma_word_len_bound(s: Seq<char>)
    ensures
        word_len(s) <= s.len(),
        s.len() > 0 && !is_ws(s[0]) ==> word_len(s) >= 1,
    decreases s.len(),
{
    if s.len() > 0 && !is_ws(s[0]) {
        lemma_word_len_bound(s.drop_first());
    }
}

/// The pieces of `s` between occurrences of `c` (`str::split` with a
/// `char` pattern): one more piece than there are occurrences.
pub open spec fn split_char(s: Seq<char>, c: char) -> Seq<Seq<char>>
    decreases s.len(),
{
    match first_index_of(s, c) {
        None => seq![s],
        Some(i) => {
            proof {
                crate::sse::lemma_first_index_bound(s, c);
            }
            if 0 <= i < s.len() {
                seq![s.take(i)] + split_char(s.skip(i + 1), c)
            } else {
                seq![s]
            }
        },
    }
}

/// The month number of a lowercase English month abbreviation.
pub open spec fn month_number(m: Seq<char>) -> Option<u64> {
    if m == "jan"@ {
        Some(1)
    } else if m == "feb"@ {
        Some(2)
    } else if m == "mar"@ {
        Some(3)
    } else if m == "apr"@ {
        Some(4)
    } else if m == "may"@ {
        Some(5)
    } else if m == "jun"@ {
        Some(6)
    } else if m == "jul"@ {
        Some(7)
    } else if m == "aug"@ {
        Some(8)
    } else if m == "sep"@ {
        Some(9)
    } else if m == "oct"@ {
        Some(10)
    } else if m == "nov"@ {
        Some(11)
    } else if m == "dec"@ {
        Some(12)
    } else {
        None
    }
}

/// The fields of an HTTP date.
pub struct DateFields {
    pub month: u64,
    pub day: u64,
    pub year: u64,
    pub hour: u64,
    pub minute: u64,
    pub second: u64,
}

/// The fields of a date from its words and its month number: the day is
/// the second word, the year the fourth, and the fifth is `hh:mm:ss`; the
/// numbers are parsed as unsigned integers.
pub open spec fn fields_from_words(p: Seq<Seq<char>>, month: u64) -> Option<DateFields> {
    let t = split_char(p[4], ':');
    if parse_u64_spec(p[1]) is None || parse_u64_spec(p[3]) is None || t.len() < 3
        || parse_u64_spec(t[0]) is None || parse_u64_spec(t[1]) is None || parse_u64_spec(
        t[2],
    ) is None {
        None
    } else {
        Some(
            DateFields {
                month,
                day: parse_u64_spec(p[1])->0,
                year: parse_u64_spec(p[3])->0,
                hour: parse_u64_spec(t[0])->0,
                minute: parse_u64_spec(t[1])->0,
                second: parse_u64_spec(t[2])->0,
            },
        )
    }
}

/// The fields read from a date: the words `weekday, day month year
/// hh:mm:ss zone` (at least six words), the month matched without regard
/// to case, the numbers parsed as unsigned integers.
pub open spec fn date_fields(s: Seq<char>) -> Option<DateFields> {
    let p = words(trim(s));
    if p.len() < 6 {
        None
    } else {
        match month_number(unicode_lowercase(p[2])) {
            None => None,
            Some(month) => fields_from_words(p, month),
        }
    }
}

pub open spec fn days_before_month(month: u64) -> int {
    if month == 1 {
        0
    } else if month == 2 {
        31
    } else if month == 3 {
        59
    } else if month == 4 {
        90
    } else if month == 5 {
        120
    } else if month == 6 {
        151
    } else if month == 7 {
        181
    } else if month == 8 {
        212
    } else if month == 9 {
        243
    } else if month == 10 {
        273
    } else if month == 11 {
        304
    } else {
        334
    }
}

/// Seconds since the epoch of a date, counting 365 days a year plus one
/// leap day every four years from 1969 and ignoring leap years within the
/// date's own year.
pub open spec fn date_value(f: DateFields) -> int {
    let day_of_year = days_before_month(f.month) + f.day - 1;
    let total_days = (f.year - 1970) * 365 + (f.year - 1969) / 4 + day_of_year;
    total_days * 86400 + f.hour * 3600 + f.minute * 60 + f.second
}

/// The date's arithmetic stays within `u64`, as computed without
/// panicking: the day of the year is not before its first day, the year is
/// at least 1970 and the result fits.
pub open spec fn date_in_range(f: DateFields) -> bool {
    days_before_month(f.month) + f.day >= 1 && f.year >= 1970 && date_value(f) <= u64::MAX
}

/// The value of a date string, `None` when it is not a date or its
/// arithmetic leaves the `u64` range.
pub open spec fn http_date_spec(s: Seq<char>) -> Option<u64> {
    match date_fields(s) {
        Some(f) => if date_in_range(f) {
            Some(date_value(f) as u64)
        } else {
            None
        },
        None => None,
    }
}

/// The words of characters `from..` of `cs`.
pub fn split_whitespace(cs: &Vec<char>) -> (r: Vec<Vec<char>>)
    ensures
        r@.map_values(|w: Vec<char>| w@) == words(cs@),
{
    let mut out: Vec<Vec<char>> = Vec::new();
    let mut i: usize = 0;
    assert(cs@.skip(0) == cs@);
    while i < cs.len()
        invariant
            i <= cs.len(),
            out@.map_values(|w: Vec<char>| w@) + words(cs@.skip(i as int)) == words(cs@),
        decreases cs.len() - i,
    {
        if is_whitespace(cs[i]) {
            assert(cs@.skip(i as int).drop_first() == cs@.skip(i + 1));
            i += 1;
        } else {
            let start = i;
            while i < cs.len() && !is_whitespace(cs[i])
                invariant
                    start <= i <= cs.len(),
                    forall|j: int| start <= j < i ==> !is_ws(#[trigger] cs@[j]),
                decreases cs.len() - i,
            {
                i += 1;
            }
            proof {
                lemma_word_len_run(cs@.skip(start as int), (i - start) as int);
                lemma_word_len_bound(cs@.skip(start as int));
                assert(cs@.skip(start as int).take((i - start) as int) == cs@.subrange(
                    start as int,
                    i as int,
                ));
                assert(cs@.skip(start as int).skip((i - start) as int) == cs@.skip(i as int));
            }
            let w = sub_chars(cs, start, i);
            let ghost before = out@;
            out.push(w);
            assert(out@.map_values(|w: Vec<char>| w@) == before.map_values(|w: Vec<char>| w@).push(
                w@,
            ));
        }
    }
    assert(cs@.skip(i as int) == Seq::<char>::empty());
    assert(out@.map_values(|w: Vec<char>| w@) + Seq::<Seq<char>>::empty() == out@.map_values(
        |w: Vec<char>| w@,
    ));
    out
}

proof fn lemma_word_len_run(s: Seq<char>, n: int)
    requires
        0 <= n <= s.len(),
        forall|j: int| 0 <= j < n ==> !is_ws(#[trigger] s[j]),
        n == s.len() || is_ws(s[n]),
    ensures
        word_len(s) == n,
    decreases n,
{
    if n > 0 {
        assert forall|j: int| 0 <= j < n - 1 implies !is_ws(#[trigger] s.drop_first()[j]) by {
            assert(s.drop_first()[j] == s[j + 1]);
        }
        if n < s.len() {
            assert(s.drop_first()[n - 1] == s[n]);
        }
        lemma_word_len_run(s.drop_first(), n - 1);
    }
}

/// The pieces of `cs` between occurrences of `c`.
fn split_on(cs: &Vec<char>, c: char) -> (r: Vec<Vec<char>>)
    ensures
        r@.map_values(|w: Vec<char>| w@) == split_char(cs@, c),
{
    let mut out: Vec<Vec<char>> = Vec::new();
    let mut i: usize = 0;
    assert(cs@.skip(0) == cs@);
    loop
        invariant
            i <= cs.len(),
            out@.map_values(|w: Vec<char>| w@) + split_char(cs@.skip(i as int), c) == split_char(
                cs@,
                c,
            ),
        decreases cs.len() - i,
    {
        let ghost rest = cs@.skip(i as int);
        assert(rest == cs@.subrange(i as int, cs@.len() as int));
        match find_char(cs, i, c) {
            None => {
                let w = sub_chars(cs, i, cs.len());
                let ghost before = out@;
                out.push(w);
                assert(out@.map_values(|w: Vec<char>| w@) =~= before.map_values(|w: Vec<char>| w@)
                    + seq![rest]);
                return out;
            },
            Some(p) => {
                proof {
                    crate::sse::lemma_first_index_bound(rest, c);
                    assert(rest.take(p - i) == cs@.subrange(i as int, p as int));
                    assert(rest.skip(p - i + 1) == cs@.skip(p + 1));
                }
                let w = sub_chars(cs, i, p);
                let ghost before = out@;
                out.push(w);
                assert(out@.map_values(|w: Vec<char>| w@) =~= before.map_values(|w: Vec<char>| w@)
                    + seq![rest.take(p - i)]);
                i = p + 1;
            },
        }
    }
}

/// Whether `cs` holds exactly the characters of `s`.
fn eq_str(cs: &Vec<char>, s: &str) -> (r: bool)
    ensures
        r == (cs@ == s@),
{
    let sv = chars_of(s);
    if sv.len() != cs.len() {
        return false;
    }
    let mut i: usize = 0;
    while i < cs.len()
        invariant
            sv@ == s@,
            sv.len() == cs.len(),
            i <= cs.len(),
            forall|j: int| 0 <= j < i ==> cs@[j] == sv@[j],
        decreases cs.len() - i,
    {
        if cs[i] != sv[i] {
            return false;
        }
        i += 1;
    }
    assert(cs@ =~= sv@);
    true
}

/// The month number of a lowercase English month abbreviation.
pub fn month_of(m: &Vec<char>) -> (r: Option<u64>)
    ensures
        r == month_number(m@),
{
    if eq_str(m, "jan") {
        Some(1)
    } else if eq_str(m, "feb") {
        Some(2)
    } else if eq_str(m, "mar") {
        Some(3)
    } else if eq_str(m, "apr") {
        Some(4)
    } else if eq_str(m, "may") {
        Some(5)
    } else if eq_str(m, "jun") {
        Some(6)
    } else if eq_str(m, "jul") {
        Some(7)
    } else if eq_str(m, "aug") {
        Some(8)
    } else if eq_str(m, "sep") {
        Some(9)
    } else if eq_str(m, "oct") {
        Some(10)
    } else if eq_str(m, "nov") {
        Some(11)
    } else if eq_str(m, "dec") {
        Some(12)
    } else {
        None
    }
}

fn days_before(month: u64) -> (r: u64)
    requires
        1 <= month <= 12,
    ensures
        r == days_before_month(month),
{
    if month == 1 {
        0
    } else if month == 2 {
        31
    } else if month == 3 {
        59
    } else if month == 4 {
        90
    } else if month == 5 {
        120
    } else if month == 6 {
        151
    } else if month == 7 {
        181
    } else if month == 8 {
        212
    } else if month == 9 {
        243
    } else if month == 10 {
        273
    } else if month == 11 {
        304
    } else {
        334
    }
}

/// The seconds since the epoch of a date given as its words (at least
/// six) and its month number (1 to 12); `Err(())` when the day, year or
/// time do not parse, or the date's arithmetic leaves the `u64` range.
pub fn date_from_words(parts: &Vec<Vec<char>>, month: u64) -> (r: Result<u64, ()>)
    requires
        parts@.len() >= 6,
        1 <= month <= 12,
    ensures
        ({
            let p = parts@.map_values(|w: Vec<char>| w@);
            match r {
                Ok(v) => fields_from_words(p, month) matches Some(f) && date_in_range(f) && v
                    == date_value(f),
                Err(_) => !(fields_from_words(p, month) matches Some(f) && date_in_range(f)),
            }
        }),
{
    let ghost p = parts@.map_values(|w: Vec<char>| w@);
    assert(parts@[1]@ == p[1]);
    assert(parts@[3]@ == p[3]);
    assert(parts@[4]@ == p[4]);
    assert(parts@[1]@.subrange(0, parts@[1]@.len() as int) == parts@[1]@);
    assert(parts@[3]@.subrange(0, parts@[3]@.len() as int) == parts@[3]@);
    let day = match parse_u64_chars(&parts[1], 0) {
        Some(d) => d,
        None => {
            return Err(());
        },
    };
    let year = match parse_u64_chars(&parts[3], 0) {
        Some(y) => y,
        None => {
            return Err(());
        },
    };
    let time_parts = split_on(&parts[4], ':');
    let ghost tp = split_char(p[4], ':');
    assert(time_parts@.len() == tp.len());
    if time_parts.len() < 3 {
        return Err(());
    }
    assert(time_parts@[0]@ == tp[0]);
    assert(time_parts@[1]@ == tp[1]);
    assert(time_parts@[2]@ == tp[2]);
    assert(time_parts@[0]@.subrange(0, time_parts@[0]@.len() as int) == time_parts@[0]@);
    assert(time_parts@[1]@.subrange(0, time_parts@[1]@.len() as int) == time_parts@[1]@);
    assert(time_parts@[2]@.subrange(0, time_parts@[2]@.len() as int) == time_parts@[2]@);
    let hour = match parse_u64_chars(&time_parts[0], 0) {
        Some(h) => h,
        None => {
            return Err(());
        },
    };
    let min = match parse_u64_chars(&time_parts[1], 0) {
        Some(m) => m,
        None => {
            return Err(());
        },
    };
    let sec = match parse_u64_chars(&time_parts[2], 0) {
        Some(x) => x,
        None => {
            return Err(());
        },
    };
    let ghost f = DateFields { month, day, year, hour, minute: min, second: sec };
    assert(fields_from_words(p, month) == Some(f));
    if year < 1970 {
        return Err(());
    }
    let dby: u128 = days_before(month) as u128;
    let d: u128 = day as u128;
    if dby + d == 0 {
        return Err(());
    }
    let doy: u128 = dby + d - 1;
    let y: u128 = year as u128;
    let h: u128 = hour as u128;
    let mi: u128 = min as u128;
    let se: u128 = sec as u128;
    proof {
        lemma_date_fits_u128(y, doy, h, mi, se);
    }
    let total = (y - 1970) * 365 + (y - 1969) / 4 + doy;
    let v: u128 = total * 86400 + h * 3600 + mi * 60 + se;
    assert(v as int == date_value(f));
    if v > u64::MAX as u128 {
        return Err(());
    }
    Ok(v as u64)
}

/// Parses an HTTP date into seconds since the epoch; `Err(())` when the
/// text is not such a date.
pub fn parse_http_date(s: &str) -> (r: Result<u64, ()>)
    ensures
        r matches Ok(v) ==> http_date_spec(s@) == Some(v),
        r is Err ==> http_date_spec(s@) is None,
{
    let cs = chars_of(s);
    let t = trim_chars(&cs);
    let parts = split_whitespace(&t);
    let ghost p = words(trim(s@));
    assert(parts@.map_values(|w: Vec<char>| w@) == p);
    assert(parts@.len() == p.len());
    if parts.len() < 6 {
        return Err(());
    }
    assert(parts@[2]@ == p[2]);
    let lower = chars_of(to_lowercase(string_of(&parts[2]).as_str()).as_str());
    let month = match month_of(&lower) {
        Some(m) => m,
        None => {
            return Err(());
        },
    };
    date_from_words(&parts, month)
}

/// The date arithmetic of fields below 2^64 fits in a `u128`.
proof fn lemma_date_fits_u128(y: u128, doy: u128, h: u128, mi: u128, se: u128)
    requires
        1970 <= y < 0x1_0000_0000_0000_0000,
        doy < 0x2_0000_0000_0000_0000,
        h < 0x1_0000_0000_0000_0000,
        mi < 0x1_0000_0000_0000_0000,
        se < 0x1_0000_0000_0000_0000,
    ensures
        (y - 1970) * 365 < 0x1_0000_0000_0000_0000_0000,
        (y - 1970) * 365 + (y - 1969) / 4 + doy < 0x1_0000_0000_0000_0000_0000,
        ((y - 1970) * 365 + (y - 1969) / 4 + doy) * 86400 < 0x10_0000_0000_0000_0000_0000_0000,
        h * 3600 < 0x1_0000_0000_0000_0000_0000,
        mi * 60 < 0x1_0000_0000_0000_0000_0000,
        ((y - 1970) * 365 + (y - 1969) / 4 + doy) * 86400 + h * 3600 + mi * 60 + se
            < 0x100_0000_0000_0000_0000_0000_0000,
{
    assert((y - 1970) * 365 < 0x1_0000_0000_0000_0000_0000) by (nonlinear_arith)
        requires
            1970 <= y < 0x1_0000_0000_0000_0000,
    ;
    let t = (y - 1970) * 365 + (y - 1969) / 4 + doy;
    assert(t * 86400 < 0x10_0000_0000_0000_0000_0000_0000) by (nonlinear_arith)
        requires
            0 <= t < 0x1_0000_0000_0000_0000_0000,
    ;
    assert(h * 3600 < 0x1_0000_0000_0000_0000_0000) by (nonlinear_arith)
        requires
            h < 0x1_0000_0000_0000_0000,
    ;
    assert(mi * 60 < 0x1_0000_0000_0000_0000_0000) by (nonlinear_arith)
        requires
            mi < 0x1_0000_0000_0000_0000,
    ;
}

/// Whether a `Retry-After` value is worth reading as a date.
pub open spec fn looks_like_date(v: Seq<char>) -> bool {
    contains(v, "GMT"@) || contains(v, ","@)
}

/// The value of a `Retry-After` header line: the text after an optional
/// `Retry-After:` prefix, surrounding whitespace removed.
pub open spec fn retry_after_value(header: Seq<char>) -> Seq<char> {
    if starts_with(header, "Retry-After:"@) {
        trim(header.skip("Retry-After:"@.len() as int))
    } else {
        trim(header)
    }
}

/// The delay in seconds asked for by a `Retry-After` header when the clock
/// reads `now` seconds: a number of seconds is taken as is; a date in the
/// future gives the seconds until it; anything else gives 0.
pub open spec fn retry_after_spec(header: Seq<char>, now: u64) -> u64 {
    let v = retry_after_value(header);
    if parse_u64_spec(v) is Some {
        parse_u64_spec(v)->0
    } else if looks_like_date(v) {
        match http_date_spec(v) {
            Some(d) => if d > now {
                (d - now) as u64
            } else {
                0
            },
            None => 0,
        }
    } else {
        0
    }
}

/// The delay in seconds asked for by a `Retry-After` header, with the
/// clock reading `now_secs`.
pub fn parse_retry_after_at(header: &str, now_secs: u64) -> (r: u64)
    ensures
        r == retry_after_spec(header@, now_secs),
{
    let cs = chars_of(header);
    proof {
        reveal_strlit("Retry-After:");
    }
    let body = if starts_with_chars(&cs, "Retry-After:") {
        sub_chars(&cs, 12, cs.len())
    } else {
        sub_chars(&cs, 0, cs.len())
    };
    assert(cs@.subrange(0, cs@.len() as int) == cs@);
    assert(cs@.skip(12) == cs@.subrange(12, cs@.len() as int));
    let value = trim_chars(&body);
    assert(value@ == retry_after_value(header@));
    assert(value@.subrange(0, value@.len() as int) == value@);
    if let Some(seconds) = parse_u64_chars(&value, 0) {
        return seconds;
    }
    if contains_str(&value, "GMT") || contains_str(&value, ",") {
        let text = string_of(&value);
        if let Ok(date) = parse_http_date(text.as_str()) {
            if date > now_secs {
                return date - now_secs;
            }
        }
    }
    0
}

/// The wall clock in whole seconds since the Unix epoch (0 before the
/// epoch). Nothing is stated of the reading.
#[verifier::external_body]
fn now_secs() -> u64 {
    std::time::SystemTime::now().duration_since(std::time::UNIX_EPOCH).unwrap_or_default().as_secs()
}

/// The delay in seconds asked for by a `Retry-After` header, reading the
/// wall clock for dates.
pub fn parse_retry_after(header: &str) -> (r: u64)
    ensures
        exists|now: u64| r == #[trigger] retry_after_spec(header@, now),
        parse_u64_spec(retry_after_value(header@)) matches Some(s) ==> r == s,
{
    let now = now_secs();
    parse_retry_after_at(header, now)
}

/// A value that is a plain number of seconds is returned unchanged,
/// whatever the clock reads.
pub proof fn law_seconds_ignore_clock(header: Seq<char>, a: u64, b: u64)
    requires
        parse_u64_spec(retry_after_value(header)) is Some,
    ensures
        retry_after_spec(header, a) == retry_after_spec(header, b),
{
}

/// A date never yields a delay longer than the time until it, and a date in
/// the past yields no delay.
pub proof fn law_past_date_means_no_wait(header: Seq<char>, now: u64)
    requires
        parse_u64_spec(retry_after_value(header)) is None,
        http_date_spec(retry_after_value(header)) matches Some(d) ==> d <= now,
    ensures
        retry_after_spec(header, now) == 0,
{
}

/// The English month abbreviations, January first.
pub open spec fn month_abbreviations() -> Seq<Seq<char>> {
    seq!["jan"@, "feb"@, "mar"@, "apr"@, "may"@, "jun"@, "jul"@, "aug"@, "sep"@, "oct"@, "nov"@, "dec"@]
}

/// Each of the twelve month abbreviations, `jan` to `dec`, is read as its
/// month's number, 1 to 12; and a text read as a month is one of them, the
/// one for its number.
pub proof fn law_month_names(m: Seq<char>)
    ensures
        forall|i: int| 0 <= i < 12 ==> month_number(#[trigger] month_abbreviations()[i]) == Some(
            (i + 1) as u64,
        ),
        month_number(m) matches Some(k) ==> 1 <= k <= 12 && m == month_abbreviations()[k - 1],
{
    reveal_strlit("jan");
    reveal_strlit("feb");
    reveal_strlit("mar");
    reveal_strlit("apr");
    reveal_strlit("may");
    reveal_strlit("jun");
    reveal_strlit("jul");
    reveal_strlit("aug");
    reveal_strlit("sep");
    reveal_strlit("oct");
    reveal_strlit("nov");
    reveal_strlit("dec");
    assert("feb"@[0] != "jan"@[0]);
    assert("mar"@[0] != "jan"@[0]);
    assert("mar"@[0] != "feb"@[0]);
    assert("apr"@[0] != "jan"@[0]);
    assert("apr"@[0] != "feb"@[0]);
    assert("apr"@[0] != "mar"@[0]);
    assert("may"@[0] != "jan"@[0]);
    assert("may"@[0] != "feb"@[0]);
    assert("may"@[2] != "mar"@[2]);
    assert("may"@[0] != "apr"@[0]);
    assert("jun"@[1] != "jan"@[1]);
    assert("jun"@[0] != "feb"@[0]);
    assert("jun"@[0] != "mar"@[0]);
    assert("jun"@[0] != "apr"@[0]);
    assert("jun"@[0] != "may"@[0]);
    assert("jul"@[1] != "jan"@[1]);
    assert("jul"@[0] != "feb"@[0]);
    assert("jul"@[0] != "mar"@[0]);
    assert("jul"@[0] != "apr"@[0]);
    assert("jul"@[0] != "may"@[0]);
    assert("jul"@[2] != "jun"@[2]);
    assert("aug"@[0] != "jan"@[0]);
    assert("aug"@[0] != "feb"@[0]);
    assert("aug"@[0] != "mar"@[0]);
    assert("aug"@[1] != "apr"@[1]);
    assert("aug"@[0] != "may"@[0]);
    assert("aug"@[0] != "jun"@[0]);
    assert("aug"@[0] != "jul"@[0]);
    assert("sep"@[0] != "jan"@[0]);
    assert("sep"@[0] != "feb"@[0]);
    assert("sep"@[0] != "mar"@[0]);
    assert("sep"@[0] != "apr"@[0]);
    assert("sep"@[0] != "may"@[0]);
    assert("sep"@[0] != "jun"@[0]);
    assert("sep"@[0] != "jul"@[0]);
    assert("sep"@[0] != "aug"@[0]);
    assert("oct"@[0] != "jan"@[0]);
    assert("oct"@[0] != "feb"@[0]);
    assert("oct"@[0] != "mar"@[0]);
    assert("oct"@[0] != "apr"@[0]);
    assert("oct"@[0] != "may"@[0]);
    assert("oct"@[0] != "jun"@[0]);
    assert("oct"@[0] != "jul"@[0]);
    assert("oct"@[0] != "aug"@[0]);
    assert("oct"@[0] != "sep"@[0]);
    assert("nov"@[0] != "jan"@[0]);
    assert("nov"@[0] != "feb"@[0]);
    assert("nov"@[0] != "mar"@[0]);
    assert("nov"@[0] != "apr"@[0]);
    assert("nov"@[0] != "may"@[0]);
    assert("nov"@[0] != "jun"@[0]);
    assert("nov"@[0] != "jul"@[0]);
    assert("nov"@[0] != "aug"@[0]);
    assert("nov"@[0] != "sep"@[0]);
    assert("nov"@[0] != "oct"@[0]);
    assert("dec"@[0] != "jan"@[0]);
    assert("dec"@[0] != "feb"@[0]);
    assert("dec"@[0] != "mar"@[0]);
    assert("dec"@[0] != "apr"@[0]);
    assert("dec"@[0] != "may"@[0]);
    assert("dec"@[0] != "jun"@[0]);
    assert("dec"@[0] != "jul"@[0]);
    assert("dec"@[0] != "aug"@[0]);
    assert("dec"@[0] != "sep"@[0]);
    assert("dec"@[0] != "oct"@[0]);
    assert("dec"@[0] != "nov"@[0]);
    assert(month_number("jan"@) == Some(1u64));
    assert(month_number("feb"@) == Some(2u64));
    assert(month_number("mar"@) == Some(3u64));
    assert(month_number("apr"@) == Some(4u64));
    assert(month_number("may"@) == Some(5u64));
    assert(month_number("jun"@) == Some(6u64));
    assert(month_number("jul"@) == Some(7u64));
    assert(month_number("aug"@) == Some(8u64));
    assert(month_number("sep"@) == Some(9u64));
    assert(month_number("oct"@) == Some(10u64));
    assert(month_number("nov"@) == Some(11u64));
    assert(month_number("dec"@) == Some(12u64));
    assert(month_abbreviations().len() == 12);
    assert forall|i: int| 0 <= i < 12 implies month_number(#[trigger] month_abbreviations()[i]) == Some((i + 1) as u64) by {
        if i == 0 { assert(month_abbreviations()[i] == "jan"@); }
        if i == 1 { assert(month_abbreviations()[i] == "feb"@); }
        if i == 2 { assert(month_abbreviations()[i] == "mar"@); }
        if i == 3 { assert(month_abbreviations()[i] == "apr"@); }
        if i == 4 { assert(month_abbreviations()[i] == "may"@); }
        if i == 5 { assert(month_abbreviations()[i] == "jun"@); }
        if i == 6 { assert(month_abbreviations()[i] == "jul"@); }
        if i == 7 { assert(month_abbreviations()[i] == "aug"@); }
        if i == 8 { assert(month_abbreviations()[i] == "sep"@); }
        if i == 9 { assert(month_abbreviations()[i] == "oct"@); }
        if i == 10 { assert(month_abbreviations()[i] == "nov"@); }
        if i == 11 { assert(month_abbreviations()[i] == "dec"@); }
    }
}

/// A date whose third word is a month abbreviation in any letter case gets
/// that month's number, whatever month it is: its fields are read from the
/// other words as for any month.
pub proof fn law_every_month_dates(s: Seq<char>, i: int)
    requires
        words(trim(s)).len() >= 6,
        0 <= i < 12,
        unicode_lowercase(words(trim(s))[2]) == month_abbreviations()[i],
    ensures
        date_fields(s) == fields_from_words(words(trim(s)), (i + 1) as u64),
{
    law_month_names(unicode_lowercase(words(trim(s))[2]));
}


} // verus!
