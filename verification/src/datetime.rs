//! A civil UTC timestamp at seconds precision, held as plain fields. The
//! warehouse's `DATETIME` wire form is `YYYY-MM-DD HH:MM:SS`; encoding and
//! decoding of that form are verified here.
use vstd::prelude::*;

use crate::conversion::{ConversionError, ConvertBigQueryParams, ConvertTypeToBigQueryType};
use crate::json::{JsonVal, JsonValue};
use crate::textfmt::{digit_char, digit_to_str, digit_val, is_dec_digit};

verus! {

/// A UTC timestamp with civil fields and seconds precision.
#[derive(Debug, Clone, Copy, PartialEq, Eq, Structural)]
pub struct Datetime {
    pub year: u16,
    pub month: u8,
    pub day: u8,
    pub hour: u8,
    pub minute: u8,
    pub second: u8,
}

/// Gregorian leap year.
pub open spec fn spec_is_leap_year(y: int) -> bool {
    y % 4 == 0 && (y % 100 != 0 || y % 400 == 0)
}

/// Number of days of month `m` in year `y`.
pub open spec fn spec_days_in_month(y: int, m: int) -> int {
    if m == 2 {
        if spec_is_leap_year(y) {
            29
        } else {
            28
        }
    } else if m == 4 || m == 6 || m == 9 || m == 11 {
        30
    } else {
        31
    }
}

impl Datetime {
    /// A well-formed timestamp: a calendar date of years 0 through 9999 and
    /// a time of day.
    pub open spec fn wf(&self) -> bool {
        &&& self.year <= 9999
        &&& 1 <= self.month <= 12
        &&& 1 <= self.day <= spec_days_in_month(self.year as int, self.month as int)
        &&& self.hour < 24
        &&& self.minute < 60
        &&& self.second < 60
    }
}

impl View for Datetime {
    type V = Datetime;

    open spec fn view(&self) -> Datetime {
        *self
    }
}

impl DeepView for Datetime {
    type V = Datetime;

    open spec fn deep_view(&self) -> Datetime {
        *self
    }
}

/// Two decimal digits, zero padded.
pub open spec fn spec_dec2(n: int) -> Seq<char> {
    seq![digit_char(n / 10), digit_char(n % 10)]
}

/// Four decimal digits, zero padded.
pub open spec fn spec_dec4(n: int) -> Seq<char> {
    seq![
        digit_char(n / 1000),
        digit_char((n / 100) % 10),
        digit_char((n / 10) % 10),
        digit_char(n % 10),
    ]
}

/// The wire text of a timestamp: `YYYY-MM-DD HH:MM:SS`.
pub open spec fn spec_datetime_string(dt: Datetime) -> Seq<char> {
    spec_dec4(dt.year as int) + seq!['-'] + spec_dec2(dt.month as int) + seq!['-'] + spec_dec2(
        dt.day as int,
    ) + seq![' '] + spec_dec2(dt.hour as int) + seq![':'] + spec_dec2(dt.minute as int) + seq![':']
        + spec_dec2(dt.second as int)
}

/// The timestamp denoted by wire text, or nothing when the text is not the
/// `YYYY-MM-DD HH:MM:SS` form (a `T` separator and one trailing `Z` are
/// also accepted) or the fields are out of range.
pub open spec fn spec_parse_datetime(s: Seq<char>) -> Option<Datetime> {
    let core = if s.len() == 20 && s[19] == 'Z' {
        s.take(19)
    } else {
        s
    };
    if core.len() == 19 && is_dec_digit(core[0]) && is_dec_digit(core[1]) && is_dec_digit(core[2])
        && is_dec_digit(core[3]) && core[4] == '-' && is_dec_digit(core[5]) && is_dec_digit(
        core[6],
    ) && core[7] == '-' && is_dec_digit(core[8]) && is_dec_digit(core[9]) && (core[10] == ' '
        || core[10] == 'T') && is_dec_digit(core[11]) && is_dec_digit(core[12]) && core[13] == ':'
        && is_dec_digit(core[14]) && is_dec_digit(core[15]) && core[16] == ':' && is_dec_digit(
        core[17],
    ) && is_dec_digit(core[18]) {
        let y = digit_val(core[0]) * 1000 + digit_val(core[1]) * 100 + digit_val(core[2]) * 10
            + digit_val(core[3]);
        let mo = digit_val(core[5]) * 10 + digit_val(core[6]);
        let d = digit_val(core[8]) * 10 + digit_val(core[9]);
        let h = digit_val(core[11]) * 10 + digit_val(core[12]);
        let mi = digit_val(core[14]) * 10 + digit_val(core[15]);
        let se = digit_val(core[17]) * 10 + digit_val(core[18]);
        if 1 <= mo <= 12 && 1 <= d <= spec_days_in_month(y, mo) && h < 24 && mi < 60 && se < 60 {
            Some(
                Datetime {
                    year: y as u16,
                    month: mo as u8,
                    day: d as u8,
                    hour: h as u8,
                    minute: mi as u8,
                    second: se as u8,
                },
            )
        } else {
            None
        }
    } else {
        None
    }
}

/// Appends two zero-padded decimal digits of `n`.
fn push_dec2(s: &mut String, n: u8)
    requires
        n < 100,
    ensures
        final(s)@ == old(s)@ + spec_dec2(n as int),
{
    s.append(digit_to_str((n / 10) as u64));
    s.append(digit_to_str((n % 10) as u64));
    proof {
        assert(s@ =~= old(s)@ + spec_dec2(n as int));
    }
}

/// Renders a well-formed timestamp as its wire text.
pub fn datetime_to_string(dt: &Datetime) -> (r: String)
    requires
        dt.wf(),
    ensures
        r@ == spec_datetime_string(*dt),
{
    let mut s = String::new();
    s.append(digit_to_str((dt.year / 1000) as u64));
    s.append(digit_to_str(((dt.year / 100) % 10) as u64));
    s.append(digit_to_str(((dt.year / 10) % 10) as u64));
    s.append(digit_to_str((dt.year % 10) as u64));
    s.append("-");
    push_dec2(&mut s, dt.month);
    s.append("-");
    push_dec2(&mut s, dt.day);
    s.append(" ");
    push_dec2(&mut s, dt.hour);
    s.append(":");
    push_dec2(&mut s, dt.minute);
    s.append(":");
    push_dec2(&mut s, dt.second);
    proof {
        reveal_strlit("-");
        reveal_strlit(" ");
        reveal_strlit(":");
        assert("-"@ =~= seq!['-']);
        assert(" "@ =~= seq![' ']);
        assert(":"@ =~= seq![':']);
        assert(s@ =~= spec_datetime_string(*dt));
    }
    s
}

/// Reads a digit character of `s` at `i`, or nothing when it is no digit.
fn read_digit(s: &str, i: usize) -> (r: Option<u16>)
    requires
        i < s@.len(),
    ensures
        match r {
            Some(d) => is_dec_digit(s@[i as int]) && d == digit_val(s@[i as int]),
            None => !is_dec_digit(s@[i as int]),
        },
{
    let c = s.get_char(i);
    let code = c as u32;
    if code >= 48 && code <= 57 {
        Some((code - 48) as u16)
    } else {
        None
    }
}

/// Reads wire text as a timestamp; `Ok` exactly on the texts that
/// `spec_parse_datetime` accepts.
pub fn parse_datetime(s: &str) -> (r: Result<Datetime, ConversionError>)
    ensures
        match r {
            Ok(dt) => spec_parse_datetime(s@) == Some(dt) && dt.wf(),
            Err(_) => spec_parse_datetime(s@) is None,
        },
{
    let len = s.unicode_len();
    let core_len: usize = if len == 20 {
        if s.get_char(19) == 'Z' {
            19
        } else {
            20
        }
    } else {
        len
    };
    let ghost core = if s@.len() == 20 && s@[19] == 'Z' {
        s@.take(19)
    } else {
        s@
    };
    proof {
        if s@.len() == 20 && s@[19] == 'Z' {
            assert(core =~= s@.take(19));
        }
        assert(core.len() == core_len);
    }
    if core_len != 19 {
        return Err(ConversionError::new("invalid DATETIME text"));
    }
    proof {
        assert(forall|j: int| 0 <= j < 19 ==> core[j] == s@[j]);
    }
    let sep4 = s.get_char(4);
    let sep7 = s.get_char(7);
    let sep10 = s.get_char(10);
    let sep13 = s.get_char(13);
    let sep16 = s.get_char(16);
    if sep4 != '-' || sep7 != '-' || (sep10 != ' ' && sep10 != 'T') || sep13 != ':' || sep16 != ':'
    {
        return Err(ConversionError::new("invalid DATETIME text"));
    }
    let d0 = read_digit(s, 0);
    let d1 = read_digit(s, 1);
    let d2 = read_digit(s, 2);
    let d3 = read_digit(s, 3);
    let d5 = read_digit(s, 5);
    let d6 = read_digit(s, 6);
    let d8 = read_digit(s, 8);
    let d9 = read_digit(s, 9);
    let d11 = read_digit(s, 11);
    let d12 = read_digit(s, 12);
    let d14 = read_digit(s, 14);
    let d15 = read_digit(s, 15);
    let d17 = read_digit(s, 17);
    let d18 = read_digit(s, 18);
    match (d0, d1, d2, d3, d5, d6, d8, d9, d11, d12, d14, d15, d17, d18) {
        (
            Some(y0),
            Some(y1),
            Some(y2),
            Some(y3),
            Some(mo0),
            Some(mo1),
            Some(da0),
            Some(da1),
            Some(h0),
            Some(h1),
            Some(mi0),
            Some(mi1),
            Some(se0),
            Some(se1),
        ) => {
            let y: u16 = y0 * 1000 + y1 * 100 + y2 * 10 + y3;
            let mo: u8 = (mo0 * 10 + mo1) as u8;
            let d: u8 = (da0 * 10 + da1) as u8;
            let h: u8 = (h0 * 10 + h1) as u8;
            let mi: u8 = (mi0 * 10 + mi1) as u8;
            let se: u8 = (se0 * 10 + se1) as u8;
            if mo < 1 || mo > 12 {
                return Err(ConversionError::new("DATETIME month out of range"));
            }
            let dim: u8 = days_in_month(y, mo);
            if d < 1 || d > dim {
                return Err(ConversionError::new("DATETIME day out of range"));
            }
            if h >= 24 {
                return Err(ConversionError::new("DATETIME hour out of range"));
            }
            if mi >= 60 {
                return Err(ConversionError::new("DATETIME minute out of range"));
            }
            if se >= 60 {
                return Err(ConversionError::new("DATETIME second out of range"));
            }
            Ok(Datetime { year: y, month: mo, day: d, hour: h, minute: mi, second: se })
        },
        _ => Err(ConversionError::new("invalid DATETIME text")),
    }
}

/// Number of days of month `mo` in year `y`.
pub fn days_in_month(y: u16, mo: u8) -> (r: u8)
    requires
        1 <= mo <= 12,
    ensures
        r == spec_days_in_month(y as int, mo as int),
{
    if mo == 2 {
        if y % 4 == 0 && (y % 100 != 0 || y % 400 == 0) {
            29
        } else {
            28
        }
    } else if mo == 4 || mo == 6 || mo == 9 || mo == 11 {
        30
    } else {
        31
    }
}

impl ConvertBigQueryParams for Datetime {
    /// Only well-formed timestamps have a wire text.
    open spec fn param_wf(&self) -> bool {
        self.wf()
    }

    open spec fn spec_to_param(&self) -> JsonVal {
        JsonVal::Text(spec_datetime_string(*self))
    }

    open spec fn spec_from_param(v: JsonVal) -> Option<Datetime> {
        match v {
            JsonVal::Text(s) => spec_parse_datetime(s),
            _ => None,
        }
    }

    fn from_param(value: &JsonValue) -> (r: Result<Self, ConversionError>) {
        match value {
            JsonValue::Text(s) => parse_datetime(s.as_str()),
            _ => Err(ConversionError::new("expected a JSON string for DATETIME")),
        }
    }

    fn to_param(&self) -> (r: JsonValue) {
        JsonValue::Text(datetime_to_string(self))
    }

    proof fn lemma_round_trip(&self) {
        lemma_datetime_string_round_trip(*self);
    }
}

/// Rendering a well-formed timestamp and parsing the text gives the
/// timestamp back.
pub proof fn lemma_datetime_string_round_trip(dt: Datetime)
    requires
        dt.wf(),
    ensures
        spec_parse_datetime(spec_datetime_string(dt)) == Some(dt),
{
    let s = spec_datetime_string(dt);
    assert(s.len() == 19);
    let y = dt.year as int;
    assert(s[0] == digit_char(y / 1000));
    assert(s[1] == digit_char((y / 100) % 10));
    assert(s[2] == digit_char((y / 10) % 10));
    assert(s[3] == digit_char(y % 10));
    assert(s[4] == '-');
    assert(s[5] == digit_char(dt.month as int / 10));
    assert(s[6] == digit_char(dt.month as int % 10));
    assert(s[7] == '-');
    assert(s[8] == digit_char(dt.day as int / 10));
    assert(s[9] == digit_char(dt.day as int % 10));
    assert(s[10] == ' ');
    assert(s[11] == digit_char(dt.hour as int / 10));
    assert(s[12] == digit_char(dt.hour as int % 10));
    assert(s[13] == ':');
    assert(s[14] == digit_char(dt.minute as int / 10));
    assert(s[15] == digit_char(dt.minute as int % 10));
    assert(s[16] == ':');
    assert(s[17] == digit_char(dt.second as int / 10));
    assert(s[18] == digit_char(dt.second as int % 10));
    lemma_digit_char_val(y / 1000);
    lemma_digit_char_val((y / 100) % 10);
    lemma_digit_char_val((y / 10) % 10);
    lemma_digit_char_val(y % 10);
    lemma_digit_char_val(dt.month as int / 10);
    lemma_digit_char_val(dt.month as int % 10);
    lemma_digit_char_val(dt.day as int / 10);
    lemma_digit_char_val(dt.day as int % 10);
    lemma_digit_char_val(dt.hour as int / 10);
    lemma_digit_char_val(dt.hour as int % 10);
    lemma_digit_char_val(dt.minute as int / 10);
    lemma_digit_char_val(dt.minute as int % 10);
    lemma_digit_char_val(dt.second as int / 10);
    lemma_digit_char_val(dt.second as int % 10);
    lemma_recompose4(y);
    lemma_recompose2(dt.month as int);
    lemma_recompose2(dt.day as int);
    lemma_recompose2(dt.hour as int);
    lemma_recompose2(dt.minute as int);
    lemma_recompose2(dt.second as int);
}

/// `digit_char` and `digit_val` are inverse on single digits.
proof fn lemma_digit_char_val(d: int)
    requires
        0 <= d <= 9,
    ensures
        is_dec_digit(digit_char(d)),
        digit_val(digit_char(d)) == d,
{
}

/// A number below 100 is recomposed from its two decimal digits.
proof fn lemma_recompose2(n: int)
    requires
        0 <= n < 100,
    ensures
        (n / 10) * 10 + n % 10 == n,
        0 <= n / 10 <= 9,
        0 <= n % 10 <= 9,
{
    vstd::arithmetic::div_mod::lemma_fundamental_div_mod(n, 10);
}

/// A number below 10000 is recomposed from its four decimal digits.
proof fn lemma_recompose4(n: int)
    requires
        0 <= n < 10000,
    ensures
        (n / 1000) * 1000 + ((n / 100) % 10) * 100 + ((n / 10) % 10) * 10 + n % 10 == n,
        0 <= n / 1000 <= 9,
        0 <= (n / 100) % 10 <= 9,
        0 <= (n / 10) % 10 <= 9,
        0 <= n % 10 <= 9,
{
    vstd::arithmetic::div_mod::lemma_fundamental_div_mod(n, 10);
    vstd::arithmetic::div_mod::lemma_fundamental_div_mod(n / 10, 10);
    vstd::arithmetic::div_mod::lemma_fundamental_div_mod(n / 100, 10);
    assert((n / 10) / 10 == n / 100) by (nonlinear_arith)
        requires
            0 <= n < 10000,
    ;
    assert((n / 100) / 10 == n / 1000) by (nonlinear_arith)
        requires
            0 <= n < 10000,
    ;
    assert((n / 1000) % 10 == n / 1000) by {
        assert(0 <= n / 1000 <= 9);
    }
}

/// Encoding a decoded timestamp collapses every accepted wire form — the
/// `T` separator and a trailing `Z` included — to the canonical
/// space-separated text.
pub proof fn lemma_datetime_normalize(x: Datetime, j: JsonVal)
    requires
        <Datetime as ConvertBigQueryParams>::spec_from_param(j) == Some(x),
    ensures
        x.spec_to_param() == JsonVal::Text(spec_datetime_string(x)),
        j matches JsonVal::Text(s) && spec_parse_datetime(s) == Some(x),
{
}

/// A parsed timestamp is well-formed.
pub proof fn lemma_parse_datetime_wf(s: Seq<char>)
    requires
        spec_parse_datetime(s) is Some,
    ensures
        spec_parse_datetime(s)->Some_0.wf(),
{
}

impl ConvertTypeToBigQueryType for Datetime {
    open spec fn spec_bigquery_type() -> Seq<char> {
        "DATETIME"@
    }

    fn convert_type_to_bigquery_type() -> (r: String) {
        String::from_str("DATETIME")
    }
}

} // verus!
