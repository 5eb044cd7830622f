//! RFC 3339 timestamps, as intents carry their deadline.
//!
//! Accepted: `YYYY-MM-DDTHH:MM:SS`, an optional fraction of a second, and
//! `Z` or a `+HH:MM` / `-HH:MM` offset; years 1 to 9999. The instant is in
//! milliseconds since the Unix epoch; digits past the millisecond are
//! dropped.

use vstd::prelude::*;

use crate::text::chars_of;

verus! {

pub open spec fn digit(c: char) -> Option<int> {
    if '0' <= c && c <= '9' {
        Some(c as u32 - 48)
    } else {
        None
    }
}

/// The number that the `len` digits of `s` at `from` spell.
pub open spec fn number_at(s: Seq<char>, from: int, len: nat) -> Option<int>
    decreases len,
{
    if from < 0 || from + len > s.len() {
        None
    } else if len == 0 {
        Some(0)
    } else {
        match (number_at(s, from, (len - 1) as nat), digit(s[from + len - 1])) {
            (Some(v), Some(d)) => Some(v * 10 + d),
            _ => None,
        }
    }
}

/// How many digits follow one another in `s` from `i` on.
pub open spec fn digit_run(s: Seq<char>, i: int) -> int
    decreases s.len() - i,
{
    if 0 <= i < s.len() && digit(s[i]) is Some {
        1 + digit_run(s, i + 1)
    } else {
        0
    }
}

pub open spec fn is_leap(y: int) -> bool {
    (y % 4 == 0 && y % 100 != 0) || y % 400 == 0
}

pub open spec fn days_in_month(y: int, m: int) -> int {
    if m == 2 {
        if is_leap(y) {
            29
        } else {
            28
        }
    } else if m == 4 || m == 6 || m == 9 || m == 11 {
        30
    } else {
        31
    }
}

/// Days from 1970-01-01 to the given date of the proleptic Gregorian calendar.
pub open spec fn days_from_civil(y: int, m: int, d: int) -> int {
    let yy = if m <= 2 {
        y - 1
    } else {
        y
    };
    let era = yy / 400;
    let yoe = yy - era * 400;
    let mp = (m + 9) % 12;
    let doy = (153 * mp + 2) / 5 + d - 1;
    let doe = yoe * 365 + yoe / 4 - yoe / 100 + doy;
    era * 146097 + doe - 719468
}

/// Milliseconds that the fraction digits at `from` give, `run` of them.
pub open spec fn fraction_ms(s: Seq<char>, from: int, run: int) -> int {
    let d0 = if run >= 1 {
        digit(s[from])->0
    } else {
        0
    };
    let d1 = if run >= 2 {
        digit(s[from + 1])->0
    } else {
        0
    };
    let d2 = if run >= 3 {
        digit(s[from + 2])->0
    } else {
        0
    };
    d0 * 100 + d1 * 10 + d2
}

/// Where the zone of `s` starts: after the seconds and any fraction.
pub open spec fn zone_start(s: Seq<char>) -> int {
    if s.len() > 19 && s[19] == '.' {
        20 + digit_run(s, 20)
    } else {
        19
    }
}

/// The zone offset east of UTC, in minutes, or `None` where the zone is
/// malformed or does not end the text.
pub open spec fn zone_minutes(s: Seq<char>, z: int) -> Option<int> {
    if s.len() == z + 1 && s[z] == 'Z' {
        Some(0)
    } else if s.len() == z + 6 && (s[z] == '+' || s[z] == '-') && s[z + 3] == ':' {
        match (number_at(s, z + 1, 2), number_at(s, z + 4, 2)) {
            (Some(h), Some(m)) => if h < 24 && m < 60 {
                Some(
                    if s[z] == '+' {
                        h * 60 + m
                    } else {
                        -(h * 60 + m)
                    },
                )
            } else {
                None
            },
            _ => None,
        }
    } else {
        None
    }
}

/// The instant `s` names, in milliseconds since the Unix epoch.
pub open spec fn timestamp_ms_of(s: Seq<char>) -> Option<int> {
    if s.len() < 20 || s[4] != '-' || s[7] != '-' || s[10] != 'T' || s[13] != ':' || s[16] != ':'
        || (s[19] == '.' && digit_run(s, 20) == 0) {
        None
    } else {
        match (
            number_at(s, 0, 4),
            number_at(s, 5, 2),
            number_at(s, 8, 2),
            number_at(s, 11, 2),
            number_at(s, 14, 2),
            number_at(s, 17, 2),
            zone_minutes(s, zone_start(s)),
        ) {
            (Some(y), Some(mo), Some(d), Some(h), Some(mi), Some(se), Some(off)) => if 1 <= y && 1
                <= mo <= 12 && 1 <= d <= days_in_month(y, mo) && h < 24 && mi < 60 && se < 60 {
                Some(
                    (days_from_civil(y, mo, d) * 86400 + h * 3600 + mi * 60 + se) * 1000
                        + (if s[19] == '.' {
                        fraction_ms(s, 20, digit_run(s, 20))
                    } else {
                        0
                    }) - off * 60000,
                )
            } else {
                None
            },
            _ => None,
        }
    }
}

fn digit_of(c: char) -> (r: Option<i64>)
    ensures
        match digit(c) {
            Some(d) => r == Some(d as i64) && 0 <= d < 10,
            None => r is None,
        },
{
    if '0' <= c && c <= '9' {
        Some((c as u32 - 48) as i64)
    } else {
        None
    }
}

pub open spec fn pow10(n: nat) -> int
    decreases n,
{
    if n == 0 {
        1
    } else {
        10 * pow10((n - 1) as nat)
    }
}

proof fn lemma_pow10_mono(a: nat, b: nat)
    requires
        a <= b,
    ensures
        1 <= pow10(a) <= pow10(b),
    decreases b,
{
    if a < b {
        lemma_pow10_mono(a, (b - 1) as nat);
    } else if a > 0 {
        lemma_pow10_mono((a - 1) as nat, (a - 1) as nat);
    }
}

/// A non-digit at `from + k` spoils every longer number from `from`.
proof fn lemma_number_none(s: Seq<char>, from: int, k: nat, len: nat)
    requires
        k < len,
        0 <= from,
        from + len <= s.len(),
        digit(s[from + k]) is None,
    ensures
        number_at(s, from, len) is None,
    decreases len,
{
    if k < len - 1 {
        lemma_number_none(s, from, k, (len - 1) as nat);
    }
}

fn number_of(cs: &Vec<char>, from: usize, len: usize) -> (r: Option<i64>)
    requires
        len <= 4,
    ensures
        match number_at(cs@, from as int, len as nat) {
            Some(v) => r == Some(v as i64) && 0 <= v < 10000,
            None => r is None,
        },
{
    if from > cs.len() || len > cs.len() - from {
        return None;
    }
    let mut v: i64 = 0;
    let mut k: usize = 0;
    proof {
        assert(pow10(3) == 1000 && pow10(4) == 10000) by {
            reveal_with_fuel(pow10, 5);
        }
    }
    while k < len
        invariant
            k <= len <= 4,
            from + len <= cs.len(),
            number_at(cs@, from as int, k as nat) == Some(v as int),
            0 <= v < pow10(k as nat),
            pow10(3) == 1000,
            pow10(4) == 10000,
        decreases len - k,
    {
        match digit_of(cs[from + k]) {
            Some(d) => {
                proof {
                    lemma_pow10_mono(k as nat, 3);
                    assert(pow10((k + 1) as nat) == 10 * pow10(k as nat));
                }
                v = v * 10 + d;
            },
            None => {
                proof {
                    lemma_number_none(cs@, from as int, k as nat, len as nat);
                }
                return None;
            },
        }
        k = k + 1;
    }
    proof {
        lemma_pow10_mono(len as nat, 4);
    }
    Some(v)
}

fn digit_run_of(cs: &Vec<char>, i: usize) -> (r: usize)
    ensures
        r == digit_run(cs@, i as int),
        r == 0 || i + r <= cs@.len(),
{
    let n = cs.len();
    if i >= n {
        return 0;
    }
    let mut j: usize = i;
    while j < n && digit_of(cs[j]).is_some()
        invariant
            i <= j <= n,
            n == cs@.len(),
            digit_run(cs@, i as int) == (j - i) + digit_run(cs@, j as int),
        decreases n - j,
    {
        j = j + 1;
    }
    j - i
}

fn zone_offset(cs: &Vec<char>, z: usize) -> (r: Option<i64>)
    ensures
        match zone_minutes(cs@, z as int) {
            Some(m) => r == Some(m as i64) && -1440 < m < 1440,
            None => r is None,
        },
{
    let n = cs.len();
    if z < n && n - z == 1 && cs[z] == 'Z' {
        return Some(0);
    }
    if z < n && n - z == 6 && (cs[z] == '+' || cs[z] == '-') && cs[z + 3] == ':' {
        let oh = match number_of(cs, z + 1, 2) {
            Some(v) => v,
            None => return None,
        };
        let om = match number_of(cs, z + 4, 2) {
            Some(v) => v,
            None => return None,
        };
        if oh >= 24 || om >= 60 {
            return None;
        }
        if cs[z] == '+' {
            Some(oh * 60 + om)
        } else {
            Some(-(oh * 60 + om))
        }
    } else {
        None
    }
}

fn civil_days(y: i64, m: i64, d: i64) -> (r: i64)
    requires
        1 <= y < 10000,
        1 <= m <= 12,
        1 <= d <= 31,
    ensures
        r == days_from_civil(y as int, m as int, d as int),
        -800000 < r < 3000000,
{
    let yy = if m <= 2 {
        y - 1
    } else {
        y
    };
    let era = yy / 400;
    let yoe = yy - era * 400;
    let mp = (m + 9) % 12;
    assert(0 <= era <= 24) by (nonlinear_arith)
        requires
            0 <= yy < 10000,
            era == yy / 400,
    ;
    assert(0 <= yoe < 400) by (nonlinear_arith)
        requires
            0 <= yy,
            era == yy / 400,
            yoe == yy - era * 400,
    ;
    let doy = (153 * mp + 2) / 5 + d - 1;
    assert(0 <= doy <= 400) by (nonlinear_arith)
        requires
            0 <= mp < 12,
            1 <= d <= 31,
            doy == (153 * mp + 2) / 5 + d - 1,
    ;
    let doe = yoe * 365 + yoe / 4 - yoe / 100 + doy;
    assert(0 <= doe <= 150000) by (nonlinear_arith)
        requires
            0 <= yoe < 400,
            0 <= doy <= 400,
            doe == yoe * 365 + yoe / 4 - yoe / 100 + doy,
    ;
    era * 146097 + doe - 719468
}

/// The fraction's milliseconds; `run` digits follow the point.
fn fraction_millis(cs: &Vec<char>, run: usize) -> (r: i64)
    requires
        run >= 1,
        20 + run <= cs@.len(),
        run == digit_run(cs@, 20),
    ensures
        r == fraction_ms(cs@, 20, run as int),
        0 <= r < 1000,
{
    proof {
        reveal_with_fuel(digit_run, 4);
    }
    let d0 = match digit_of(cs[20]) {
        Some(v) => v,
        None => 0,
    };
    let d1 = if run >= 2 {
        match digit_of(cs[21]) {
            Some(v) => v,
            None => 0,
        }
    } else {
        0
    };
    let d2 = if run >= 3 {
        match digit_of(cs[22]) {
            Some(v) => v,
            None => 0,
        }
    } else {
        0
    };
    d0 * 100 + d1 * 10 + d2
}

/// Parses an RFC 3339 timestamp to milliseconds since the Unix epoch.
#[verifier::rlimit(50)]
pub fn parse_timestamp_ms(s: &str) -> (r: Option<i64>)
    ensures
        match timestamp_ms_of(s@) {
            Some(v) => r matches Some(x) && x == v,
            None => r is None,
        },
{
    let cs = chars_of(s);
    let n = cs.len();
    if n < 20 || cs[4] != '-' || cs[7] != '-' || cs[10] != 'T' || cs[13] != ':' || cs[16] != ':' {
        return None;
    }
    let run = digit_run_of(&cs, 20);
    if cs[19] == '.' && run == 0 {
        return None;
    }
    let y = match number_of(&cs, 0, 4) {
        Some(v) => v,
        None => return None,
    };
    let mo = match number_of(&cs, 5, 2) {
        Some(v) => v,
        None => return None,
    };
    let d = match number_of(&cs, 8, 2) {
        Some(v) => v,
        None => return None,
    };
    let h = match number_of(&cs, 11, 2) {
        Some(v) => v,
        None => return None,
    };
    let mi = match number_of(&cs, 14, 2) {
        Some(v) => v,
        None => return None,
    };
    let se = match number_of(&cs, 17, 2) {
        Some(v) => v,
        None => return None,
    };
    let z: usize = if cs[19] == '.' {
        20 + run
    } else {
        19
    };
    assert(z == zone_start(cs@));
    let off = match zone_offset(&cs, z) {
        Some(v) => v,
        None => return None,
    };
    if y < 1 || mo < 1 || mo > 12 || d < 1 || h >= 24 || mi >= 60 || se >= 60 {
        return None;
    }
    let leap = (y % 4 == 0 && y % 100 != 0) || y % 400 == 0;
    let dim: i64 = if mo == 2 {
        if leap {
            29
        } else {
            28
        }
    } else if mo == 4 || mo == 6 || mo == 9 || mo == 11 {
        30
    } else {
        31
    };
    assert(dim == days_in_month(y as int, mo as int));
    if d > dim {
        return None;
    }
    let days = civil_days(y, mo, d);
    let frac: i64 = if cs[19] == '.' {
        fraction_millis(&cs, run)
    } else {
        0
    };
    let secs = days * 86400 + h * 3600 + mi * 60 + se;
    Some(secs * 1000 + frac - off * 60000)
}

} // verus!
