use vstd::prelude::*;
use crate::text::{chars_to_string, dec_digit, dec_of, pad2_of, pad4_of, push_pad2, push_year, str_chars, year_of};
use chrono::{Datelike, TimeZone, Timelike};

verus! {

/// A date and time in civil (wall-clock) form, at second precision: the
/// shape in which timestamps travel over the host protocol.
#[derive(Debug, Clone, Copy, PartialEq, Eq, Structural)]
pub struct DateTimeFields {
    pub year: i32,
    pub month: u32,
    pub day: u32,
    pub hour: u32,
    pub minute: u32,
    pub second: u32,
}

impl DateTimeFields {
    /// The documented ranges of the wall-clock fields.
    pub open spec fn wf(self) -> bool {
        &&& 1 <= self.month <= 12
        &&& 1 <= self.day <= 31
        &&& self.hour <= 23
        &&& self.minute <= 59
        &&& self.second <= 59
    }
}

/// The `%Y-%m-%d %H:%M:%S` rendering of the fields.
pub open spec fn datetime_text(f: DateTimeFields) -> Seq<char> {
    year_of(f.year as int) + seq!['-'] + pad2_of(f.month as nat) + seq!['-'] + pad2_of(
        f.day as nat,
    ) + seq![' '] + pad2_of(f.hour as nat) + seq![':'] + pad2_of(f.minute as nat) + seq![':']
        + pad2_of(f.second as nat)
}

/// Renders the fields in the date-and-time form the host protocol carries.
pub fn format_datetime(f: &DateTimeFields) -> (s: String)
    ensures
        s@ == datetime_text(*f),
{
    let mut out: Vec<char> = Vec::new();
    push_year(&mut out, f.year);
    out.push('-');
    push_pad2(&mut out, f.month as u64);
    out.push('-');
    push_pad2(&mut out, f.day as u64);
    out.push(' ');
    push_pad2(&mut out, f.hour as u64);
    out.push(':');
    push_pad2(&mut out, f.minute as u64);
    out.push(':');
    push_pad2(&mut out, f.second as u64);
    assert(out@ =~= datetime_text(*f));
    chars_to_string(&out)
}

/// Whether `c` is a decimal digit.
pub open spec fn is_digit_char(c: char) -> bool {
    48 <= c as u32 <= 57
}

/// The numeric value of a decimal digit character.
pub open spec fn digit_val(c: char) -> int {
    c as u32 - 48
}

/// The value of the two digits at `i` and `i + 1`.
pub open spec fn two_val(s: Seq<char>, i: int) -> int {
    digit_val(s[i]) * 10 + digit_val(s[i + 1])
}

/// The value of the four digits starting at `i`.
pub open spec fn four_val(s: Seq<char>, i: int) -> int {
    digit_val(s[i]) * 1000 + digit_val(s[i + 1]) * 100 + digit_val(s[i + 2]) * 10 + digit_val(
        s[i + 3],
    )
}

/// Whether `s` has the exact `YYYY-MM-DD HH:MM:SS` shape: nineteen
/// characters, digits everywhere but at the five separator positions.
pub open spec fn datetime_text_shape(s: Seq<char>) -> bool {
    &&& s.len() == 19
    &&& forall|i: int|
        0 <= i < 19 && i != 4 && i != 7 && i != 10 && i != 13 && i != 16 ==> is_digit_char(
            #[trigger] s[i],
        )
    &&& s[4] == '-'
    &&& s[7] == '-'
    &&& s[10] == ' '
    &&& s[13] == ':'
    &&& s[16] == ':'
}

/// The fields spelled by a text of the right shape.
pub open spec fn text_fields(s: Seq<char>) -> DateTimeFields {
    DateTimeFields {
        year: four_val(s, 0) as i32,
        month: two_val(s, 5) as u32,
        day: two_val(s, 8) as u32,
        hour: two_val(s, 11) as u32,
        minute: two_val(s, 14) as u32,
        second: two_val(s, 17) as u32,
    }
}

/// A text parses iff it has the shape and its fields lie in range.
pub open spec fn datetime_text_ok(s: Seq<char>) -> bool {
    datetime_text_shape(s) && text_fields(s).wf()
}

fn two_digits(v: &Vec<char>, i: usize) -> (r: Option<u32>)
    requires
        i + 1 < v@.len() <= usize::MAX,
    ensures
        match r {
            Some(d) => is_digit_char(v@[i as int]) && is_digit_char(v@[i + 1]) && d == two_val(
                v@,
                i as int,
            ) && d <= 99,
            None => !(is_digit_char(v@[i as int]) && is_digit_char(v@[i + 1])),
        },
{
    let c0 = v[i] as u32;
    let c1 = v[i + 1] as u32;
    if 48 <= c0 && c0 <= 57 && 48 <= c1 && c1 <= 57 {
        Some((c0 - 48) * 10 + (c1 - 48))
    } else {
        None
    }
}

fn four_digits(v: &Vec<char>, i: usize) -> (r: Option<u32>)
    requires
        i + 3 < v@.len() <= usize::MAX,
    ensures
        match r {
            Some(d) => (forall|j: int|
                i <= j < i + 4 ==> is_digit_char(#[trigger] v@[j])) && d == four_val(v@, i as int)
                && d <= 9999,
            None => !(forall|j: int| i <= j < i + 4 ==> is_digit_char(#[trigger] v@[j])),
        },
{
    let hi = match two_digits(v, i) {
        Some(d) => d,
        None => {
            return None;
        },
    };
    let lo = match two_digits(v, i + 2) {
        Some(d) => d,
        None => {
            return None;
        },
    };
    Some(hi * 100 + lo)
}

/// Reads a `YYYY-MM-DD HH:MM:SS` text back into its fields; anything that
/// does not have exactly that shape, with fields in range, is refused.
pub fn parse_datetime(s: &str) -> (r: Option<DateTimeFields>)
    ensures
        r == if datetime_text_ok(s@) {
            Some(text_fields(s@))
        } else {
            None::<DateTimeFields>
        },
{
    let v = str_chars(s);
    if v.len() != 19 {
        return None;
    }
    if !(v[4] == '-' && v[7] == '-' && v[10] == ' ' && v[13] == ':' && v[16] == ':') {
        return None;
    }
    let y = match four_digits(&v, 0) {
        Some(d) => d,
        None => {
            return None;
        },
    };
    let mo = match two_digits(&v, 5) {
        Some(d) => d,
        None => {
            return None;
        },
    };
    let d = match two_digits(&v, 8) {
        Some(d) => d,
        None => {
            return None;
        },
    };
    let h = match two_digits(&v, 11) {
        Some(d) => d,
        None => {
            return None;
        },
    };
    let mi = match two_digits(&v, 14) {
        Some(d) => d,
        None => {
            return None;
        },
    };
    let sec = match two_digits(&v, 17) {
        Some(d) => d,
        None => {
            return None;
        },
    };
    let f = DateTimeFields {
        year: y as i32,
        month: mo,
        day: d,
        hour: h,
        minute: mi,
        second: sec,
    };
    proof {
        assert(datetime_text_shape(s@));
        assert(f == text_fields(s@));
    }
    if !(1 <= mo && mo <= 12 && 1 <= d && d <= 31 && h <= 23 && mi <= 59 && sec <= 59) {
        return None;
    }
    Some(f)
}

proof fn lemma_digit_char(d: nat)
    requires
        d < 10,
    ensures
        is_digit_char(dec_digit(d)),
        digit_val(dec_digit(d)) == d,
{
}

proof fn lemma_pad2_digits(n: nat)
    requires
        n <= 99,
    ensures
        pad2_of(n) =~= seq![dec_digit(n / 10), dec_digit(n % 10)],
{
    if n < 10 {
        assert(n / 10 == 0);
        assert(n % 10 == n);
        assert(pad2_of(n) =~= seq![dec_digit(0), dec_digit(n)]);
    } else {
        assert(dec_of(n) == dec_of(n / 10).push(dec_digit(n % 10)));
        assert(n / 10 < 10);
        assert(dec_of(n / 10) == seq![dec_digit(n / 10)]);
        assert(pad2_of(n) =~= seq![dec_digit(n / 10), dec_digit(n % 10)]);
    }
}

proof fn lemma_pad4_digits(n: nat)
    requires
        n <= 9999,
    ensures
        pad4_of(n) =~= seq![
            dec_digit(n / 1000),
            dec_digit(n / 100 % 10),
            dec_digit(n / 10 % 10),
            dec_digit(n % 10),
        ],
{
    vstd::arithmetic::div_mod::lemma_div_denominator(n as int, 10, 10);
    vstd::arithmetic::div_mod::lemma_div_denominator(n as int, 100, 10);
    if n < 10 {
        assert(pad4_of(n) =~= seq![dec_digit(0), dec_digit(0), dec_digit(0), dec_digit(n)]);
    } else if n < 100 {
        assert(dec_of(n) == dec_of(n / 10).push(dec_digit(n % 10)));
        assert(dec_of(n / 10) == seq![dec_digit(n / 10)]);
        assert(n / 10 % 10 == n / 10);
        assert(pad4_of(n) =~= seq![
            dec_digit(0),
            dec_digit(0),
            dec_digit(n / 10 % 10),
            dec_digit(n % 10),
        ]);
    } else if n < 1000 {
        assert(dec_of(n) == dec_of(n / 10).push(dec_digit(n % 10)));
        assert(10 <= n / 10 < 100);
        assert(dec_of(n / 10) == dec_of(n / 10 / 10).push(dec_digit(n / 10 % 10)));
        assert(n / 10 / 10 == n / 100);
        assert(n / 100 < 10);
        assert(dec_of(n / 100) == seq![dec_digit(n / 100)]);
        assert(n / 100 % 10 == n / 100);
        assert(pad4_of(n) =~= seq![
            dec_digit(0),
            dec_digit(n / 100 % 10),
            dec_digit(n / 10 % 10),
            dec_digit(n % 10),
        ]);
    } else {
        assert(dec_of(n) == dec_of(n / 10).push(dec_digit(n % 10)));
        assert(100 <= n / 10 < 1000);
        assert(dec_of(n / 10) == dec_of(n / 10 / 10).push(dec_digit(n / 10 % 10)));
        assert(n / 10 / 10 == n / 100);
        assert(10 <= n / 100 < 100);
        assert(dec_of(n / 100) == dec_of(n / 100 / 10).push(dec_digit(n / 100 % 10)));
        assert(n / 100 / 10 == n / 1000);
        assert(n / 1000 < 10);
        assert(dec_of(n / 1000) == seq![dec_digit(n / 1000)]);
        assert(pad4_of(n) =~= seq![
            dec_digit(n / 1000),
            dec_digit(n / 100 % 10),
            dec_digit(n / 10 % 10),
            dec_digit(n % 10),
        ]);
    }
}

/// Law: a well-formed wall-clock time of the common era survives the trip
/// through its wire form — rendering the fields and reading the text back
/// returns exactly the fields that went in.
pub proof fn lemma_datetime_round_trip(f: DateTimeFields)
    requires
        f.wf(),
        0 <= f.year <= 9999,
    ensures
        datetime_text_ok(datetime_text(f)),
        text_fields(datetime_text(f)) == f,
{
    let y = f.year as nat;
    let mo = f.month as nat;
    let d = f.day as nat;
    let h = f.hour as nat;
    let mi = f.minute as nat;
    let sec = f.second as nat;
    lemma_pad4_digits(y);
    lemma_pad2_digits(mo);
    lemma_pad2_digits(d);
    lemma_pad2_digits(h);
    lemma_pad2_digits(mi);
    lemma_pad2_digits(sec);
    let s = datetime_text(f);
    let explicit = seq![
        dec_digit(y / 1000),
        dec_digit(y / 100 % 10),
        dec_digit(y / 10 % 10),
        dec_digit(y % 10),
        '-',
        dec_digit(mo / 10),
        dec_digit(mo % 10),
        '-',
        dec_digit(d / 10),
        dec_digit(d % 10),
        ' ',
        dec_digit(h / 10),
        dec_digit(h % 10),
        ':',
        dec_digit(mi / 10),
        dec_digit(mi % 10),
        ':',
        dec_digit(sec / 10),
        dec_digit(sec % 10),
    ];
    assert(s =~= explicit);
    lemma_digit_char(y / 1000);
    lemma_digit_char(y / 100 % 10);
    lemma_digit_char(y / 10 % 10);
    lemma_digit_char(y % 10);
    lemma_digit_char(mo / 10);
    lemma_digit_char(mo % 10);
    lemma_digit_char(d / 10);
    lemma_digit_char(d % 10);
    lemma_digit_char(h / 10);
    lemma_digit_char(h % 10);
    lemma_digit_char(mi / 10);
    lemma_digit_char(mi % 10);
    lemma_digit_char(sec / 10);
    lemma_digit_char(sec % 10);
    assert forall|i: int|
        0 <= i < 19 && i != 4 && i != 7 && i != 10 && i != 13 && i != 16 implies is_digit_char(
        s[i],
    ) by {
        assert(s[i] == explicit[i]);
    }
    assert(datetime_text_shape(s));
    vstd::arithmetic::div_mod::lemma_fundamental_div_mod(y as int, 10);
    vstd::arithmetic::div_mod::lemma_fundamental_div_mod(y as int / 10, 10);
    vstd::arithmetic::div_mod::lemma_fundamental_div_mod(y as int / 100, 10);
    vstd::arithmetic::div_mod::lemma_div_denominator(y as int, 10, 10);
    vstd::arithmetic::div_mod::lemma_div_denominator(y as int, 100, 10);
    assert(four_val(s, 0) == y);
    vstd::arithmetic::div_mod::lemma_fundamental_div_mod(mo as int, 10);
    assert(two_val(s, 5) == mo);
    vstd::arithmetic::div_mod::lemma_fundamental_div_mod(d as int, 10);
    assert(two_val(s, 8) == d);
    vstd::arithmetic::div_mod::lemma_fundamental_div_mod(h as int, 10);
    assert(two_val(s, 11) == h);
    vstd::arithmetic::div_mod::lemma_fundamental_div_mod(mi as int, 10);
    assert(two_val(s, 14) == mi);
    vstd::arithmetic::div_mod::lemma_fundamental_div_mod(sec as int, 10);
    assert(two_val(s, 17) == sec);
    assert(text_fields(s) == f);
}

/// The whole UTC epoch seconds that chrono's ISO-8601 parse assigns to a
/// timestamp text, when it accepts it.
pub uninterp spec fn utc_epoch_of(s: Seq<char>) -> Option<i64>;

/// Relies on chrono's `FromStr` for `DateTime<Utc>` — a relaxed RFC 3339
/// parse, a function of the text alone — and on `DateTime::timestamp`,
/// the whole seconds since the Unix epoch (sub-second part dropped).
#[verifier::external_body]
pub(crate) fn parse_utc_epoch(s: &str) -> (r: Option<i64>)
    ensures
        r == utc_epoch_of(s@),
{
    s.parse::<chrono::DateTime<chrono::Utc>>().ok().map(|d| d.timestamp())
}

/// Relies on chrono's `TimeZone::with_ymd_and_hms` for `Local` and on
/// `DateTime::timestamp`. The machine's local time zone decides the
/// result, so nothing is promised of the value that comes back.
#[verifier::external_body]
pub(crate) fn local_fields_to_epoch(f: &DateTimeFields) -> (r: Option<i64>) {
    chrono::Local.with_ymd_and_hms(f.year, f.month, f.day, f.hour, f.minute, f.second)
        .single()
        .map(|d| d.timestamp())
}

/// Relies on chrono's `TimeZone::timestamp_opt` for `Local` and on the
/// `Datelike` and `Timelike` accessors; the ensures repeats only their
/// documented ranges, since the local time zone decides the fields.
#[verifier::external_body]
pub(crate) fn epoch_to_local_fields(t: i64) -> (r: Option<DateTimeFields>)
    ensures
        match r {
            Some(f) => f.wf(),
            None => true,
        },
{
    chrono::Local.timestamp_opt(t, 0).single().map(
        |d| DateTimeFields {
            year: d.year(),
            month: d.month(),
            day: d.day(),
            hour: d.hour(),
            minute: d.minute(),
            second: d.second(),
        },
    )
}

} // verus!
