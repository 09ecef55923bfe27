//! Stored timestamps (RFC 3339, UTC) to the wire format of `Last-Modified`
use vstd::prelude::*;
use vstd::string::*;
use crate::error::OutputFault;
use crate::xml_tree::opt_view;

verus! {

pub open spec fn is_digit(c: char) -> bool {
    '0' <= c && c <= '9'
}

pub open spec fn digit_val(c: char) -> int {
    c as int - '0' as int
}

pub open spec fn digits_at(s: Seq<char>, i: int, n: int) -> bool {
    forall|k: int| i <= k < i + n ==> is_digit(#[trigger] s[k])
}

/// The two-digit number at `i`
pub open spec fn num2(s: Seq<char>, i: int) -> int {
    10 * digit_val(s[i]) + digit_val(s[i + 1])
}

pub open spec fn year_of(s: Seq<char>) -> int {
    100 * num2(s, 0) + num2(s, 2)
}

pub open spec fn month_of(s: Seq<char>) -> int {
    num2(s, 5)
}

pub open spec fn day_of(s: Seq<char>) -> int {
    num2(s, 8)
}

pub open spec fn is_leap(y: int) -> bool {
    y % 4 == 0 && (y % 100 != 0 || y % 400 == 0)
}

pub open spec fn days_in_month(y: int, m: int) -> int {
    if m == 2 {
        if is_leap(y) { 29 } else { 28 }
    } else if m == 4 || m == 6 || m == 9 || m == 11 {
        30
    } else {
        31
    }
}

/// `YYYY-MM-DDTHH:MM:SS`, an optional fraction of a second, then `Z`,
/// naming a real date and time
pub open spec fn rfc3339_utc(s: Seq<char>) -> bool {
    &&& s.len() >= 20
    &&& digits_at(s, 0, 4) && s[4] == '-' && digits_at(s, 5, 2) && s[7] == '-'
    &&& digits_at(s, 8, 2) && s[10] == 'T' && digits_at(s, 11, 2) && s[13] == ':'
    &&& digits_at(s, 14, 2) && s[16] == ':' && digits_at(s, 17, 2)
    &&& s[s.len() - 1] == 'Z'
    &&& s.len() > 20 ==> (s[19] == '.' && s.len() > 21 && digits_at(s, 20, s.len() - 21))
    &&& 1 <= month_of(s) <= 12
    &&& 1 <= day_of(s) <= days_in_month(year_of(s), month_of(s))
    &&& num2(s, 11) < 24 && num2(s, 14) < 60 && num2(s, 17) < 60
}

/// Days from 0000-03-01 of the proleptic Gregorian calendar, counted
/// 400 years later so that every year in range stays positive
pub open spec fn day_number(y: int, m: int, d: int) -> int {
    let yy = if m <= 2 { y + 399 } else { y + 400 };
    let mp = if m > 2 { m - 3 } else { m + 9 };
    let doy = (153 * mp + 2) / 5 + d - 1;
    let yoe = yy % 400;
    (yy / 400) * 146097 + yoe * 365 + yoe / 4 - yoe / 100 + doy
}

/// 0 is Sunday; day number 0 is a Wednesday
pub open spec fn weekday(y: int, m: int, d: int) -> int {
    (day_number(y, m, d) + 3) % 7
}

pub open spec fn weekday_name(w: int) -> Seq<char> {
    "SunMonTueWedThuFriSat"@.subrange(3 * w, 3 * w + 3)
}

pub open spec fn month_name(m: int) -> Seq<char> {
    "JanFebMarAprMayJunJulAugSepOctNovDec"@.subrange(3 * (m - 1), 3 * m)
}

/// `Www, DD Mon YYYY HH:MM:SS GMT`
pub open spec fn last_modified_of(s: Seq<char>) -> Seq<char> {
    weekday_name(weekday(year_of(s), month_of(s), day_of(s))) + ", "@ + s.subrange(8, 10) + " "@
        + month_name(month_of(s)) + " "@ + s.subrange(0, 4) + " "@ + s.subrange(11, 19) + " GMT"@
}

fn digit_at(s: &str, i: usize) -> (r: Option<u64>)
    requires
        i < s@.len(),
    ensures
        r matches Some(v) ==> is_digit(s@[i as int]) && v == digit_val(s@[i as int]),
        r is None ==> !is_digit(s@[i as int]),
{
    let c = s.get_char(i) as u32;
    if 48 <= c && c <= 57 {
        Some((c - 48) as u64)
    } else {
        None
    }
}

fn num2_at(s: &str, i: usize) -> (r: Option<u64>)
    requires
        i + 1 < s@.len() <= usize::MAX,
    ensures
        r matches Some(v) ==> digits_at(s@, i as int, 2) && v == num2(s@, i as int),
        r is None ==> !digits_at(s@, i as int, 2),
{
    match (digit_at(s, i), digit_at(s, i + 1)) {
        (Some(a), Some(b)) => {
            assert(digits_at(s@, i as int, 2)) by {
                assert forall|k: int| i <= k < i + 2 implies is_digit(#[trigger] s@[k]) by {
                    if k != i { assert(k == i + 1); }
                }
            }
            Some(10 * a + b)
        },
        _ => None,
    }
}

/// Converts a stored timestamp to the `Last-Modified` format; `None` where
/// it is malformed
pub fn rfc3339_to_last_modified(s: &str) -> (r: Option<String>)
    ensures
        rfc3339_utc(s@) ==> (r matches Some(t) && t@ == last_modified_of(s@)),
        !rfc3339_utc(s@) ==> r is None,
{
    let n = s.unicode_len();
    if n < 20 {
        return None;
    }
    let (c4, c7, c10, c13, c16, cz) = (s.get_char(4), s.get_char(7), s.get_char(10), s.get_char(13), s.get_char(16), s.get_char(n - 1));
    if c4 != '-' || c7 != '-' || c10 != 'T' || c13 != ':' || c16 != ':' || cz != 'Z' {
        return None;
    }
    let (y1, y2, mo, d, h, mi, se) = match (num2_at(s, 0), num2_at(s, 2), num2_at(s, 5), num2_at(s, 8), num2_at(s, 11), num2_at(s, 14), num2_at(s, 17)) {
        (Some(a), Some(b), Some(c), Some(e), Some(f), Some(g), Some(k)) => (a, b, c, e, f, g, k),
        _ => {
            proof {
                assert(!rfc3339_utc(s@)) by {
                    if rfc3339_utc(s@) {
                        assert(digits_at(s@, 0, 2));
                        assert(digits_at(s@, 2, 2));
                    }
                }
            }
            return None;
        },
    };
    assert(digits_at(s@, 0, 4));
    if n > 20 {
        if s.get_char(19) != '.' || n == 21 {
            return None;
        }
        let mut k: usize = 20;
        while k < n - 1
            invariant
                20 <= k <= n - 1,
                n == s@.len(),
                n > 21,
                digits_at(s@, 20, k - 20),
            decreases n - 1 - k,
        {
            if digit_at(s, k).is_none() {
                return None;
            }
            k = k + 1;
        }
    }
    let y = 100 * y1 + y2;
    let leap = y % 4 == 0 && (y % 100 != 0 || y % 400 == 0);
    let dim: u64 = if mo == 2 {
        if leap { 29 } else { 28 }
    } else if mo == 4 || mo == 6 || mo == 9 || mo == 11 {
        30
    } else {
        31
    };
    if mo < 1 || mo > 12 || d < 1 || d > dim || h >= 24 || mi >= 60 || se >= 60 {
        return None;
    }
    let yy: u64 = if mo <= 2 { y + 399 } else { y + 400 };
    let mp: u64 = if mo > 2 { mo - 3 } else { mo + 9 };
    let doy: u64 = (153 * mp + 2) / 5 + d - 1;
    let yoe: u64 = yy % 400;
    let dn: u64 = (yy / 400) * 146097 + yoe * 365 + yoe / 4 - yoe / 100 + doy;
    let w: u64 = (dn + 3) % 7;
    assert(w == weekday(year_of(s@), month_of(s@), day_of(s@)));
    let days = "SunMonTueWedThuFriSat";
    let months = "JanFebMarAprMayJunJulAugSepOctNovDec";
    proof {
        reveal_strlit("SunMonTueWedThuFriSat");
        reveal_strlit("JanFebMarAprMayJunJulAugSepOctNovDec");
    }
    let mut t = days.substring_char((3 * w) as usize, (3 * w + 3) as usize).to_owned();
    t.append(", ");
    t.append(s.substring_char(8, 10));
    t.append(" ");
    t.append(months.substring_char((3 * (mo - 1)) as usize, (3 * mo) as usize));
    t.append(" ");
    t.append(s.substring_char(0, 4));
    t.append(" ");
    t.append(s.substring_char(11, 19));
    t.append(" GMT");
    Some(t)
}

/// The `Last-Modified` text of an optional stored timestamp: absent stays
/// absent, a malformed one is `None`
pub open spec fn opt_last_modified(v: Option<Seq<char>>) -> Option<Option<Seq<char>>> {
    match v {
        None => Some(None),
        Some(s) => if rfc3339_utc(s) { Some(Some(last_modified_of(s))) } else { None },
    }
}

pub fn map_opt_rfc3339_to_last_modified(v: Option<String>) -> (r: Result<Option<String>, OutputFault>)
    ensures
        match opt_last_modified(opt_view(v)) {
            Some(o) => r matches Ok(t) && opt_view(t) == o,
            None => r == Err::<Option<String>, OutputFault>(OutputFault::InvalidTimestamp),
        },
{
    match v {
        None => Ok(None),
        Some(s) => match rfc3339_to_last_modified(s.as_str()) {
            Some(t) => Ok(Some(t)),
            None => Err(OutputFault::InvalidTimestamp),
        },
    }
}

} // verus!
