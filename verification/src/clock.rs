//! Wall-clock time: Unix seconds and their RFC 3339 (UTC) form.
use vstd::prelude::*;

use crate::text::{dec_nat, push_char, push_chars, u64_to_dec};

verus! {

/// Whole seconds since the Unix epoch by the system clock
/// (`SystemTime::now().duration_since(UNIX_EPOCH)`), or `None` where the
/// clock reads before the epoch (`duration_since` gives an error then). The
/// reading depends on the clock, so nothing is stated of it.
#[verifier::external_body]
fn system_clock_secs() -> (s: Option<u64>) {
    std::time::SystemTime::now()
        .duration_since(std::time::UNIX_EPOCH)
        .ok()
        .map(|d| d.as_secs())
}

/// The current Unix time in seconds, as the cache stores it: the system
/// clock's seconds as an `i64` (wrapping past `i64::MAX`, as `as` does), or
/// `None` where the clock reads before the epoch. The value is the clock's;
/// no clause states it.
pub fn now_unix() -> (t: Option<i64>) {
    match system_clock_secs() {
        Some(s) => Some(s as i64),
        None => None,
    }
}

/// The current Unix time in seconds, or `None` before the epoch.
pub fn unix_now() -> (t: Option<i64>) {
    now_unix()
}

/// The civil (proleptic Gregorian, UTC) date and time of `secs` seconds after
/// the Unix epoch, by the days-from-civil inversion over 400-year eras.
pub open spec fn spec_epoch_to_ymd_hms(secs: nat) -> (nat, nat, nat, nat, nat, nat) {
    let s = secs % 60;
    let m = (secs / 60) % 60;
    let h = (secs / 3600) % 24;
    let days = secs / 86400;
    let z = days + 719468;
    let era = z / 146097;
    let doe = z % 146097;
    let yoe = ((doe - doe / 1460 + doe / 36524 - doe / 146096) / 365) as nat;
    let y = yoe + era * 400;
    let doy = (doe - (365 * yoe + yoe / 4 - yoe / 100)) as nat;
    let mp = (5 * doy + 2) / 153;
    let d = (doy - (153 * mp + 2) / 5 + 1) as nat;
    let mo = if mp < 10 {
        mp + 3
    } else {
        (mp - 9) as nat
    };
    let y = if mo <= 2 {
        y + 1
    } else {
        y
    };
    (y, mo, d, h, m, s)
}

/// Days from 0000-03-01 to the start of the year of day `doe` of an era,
/// bounded as the conversion needs.
proof fn lemma_era_bounds(doe: nat)
    requires
        doe < 146097,
    ensures
        ({
            let yoe = ((doe - doe / 1460 + doe / 36524 - doe / 146096) / 365) as nat;
            &&& doe / 1460 + doe / 146096 <= doe + doe / 36524
            &&& yoe <= 399
            &&& 365 * yoe + yoe / 4 - yoe / 100 <= doe
            &&& doe - (365 * yoe + yoe / 4 - yoe / 100) <= 365
        }),
{
    let a = doe / 1460;
    let b = doe / 36524;
    let c = doe / 146096;
    assert(a <= doe && c <= 1 && b <= 4) by (nonlinear_arith)
        requires
            a == doe / 1460,
            b == doe / 36524,
            c == doe / 146096,
            doe < 146097,
    ;
    let t = (doe - a + b - c) as nat;
    assert(0 <= doe - a + b - c) by (nonlinear_arith)
        requires
            a == doe / 1460,
            c == doe / 146096,
            doe < 146097,
    ;
    let yoe = t / 365;
    assert(yoe <= 399 && 365 * yoe + yoe / 4 - yoe / 100 <= doe && doe - (365 * yoe + yoe / 4 - yoe
        / 100) <= 365) by (nonlinear_arith)
        requires
            a == doe / 1460,
            b == doe / 36524,
            c == doe / 146096,
            t == doe - a + b - c,
            yoe == t / 365,
            doe < 146097,
    ;
}

/// The civil date and time of `secs` seconds after the Unix epoch:
/// (year, month, day, hour, minute, second).
pub fn epoch_to_ymd_hms(secs: u64) -> (r: (u64, u64, u64, u64, u64, u64))
    ensures
        (r.0 as nat, r.1 as nat, r.2 as nat, r.3 as nat, r.4 as nat, r.5 as nat)
            == spec_epoch_to_ymd_hms(secs as nat),
        r.0 >= 1970,
        1 <= r.1 <= 12,
        1 <= r.2 <= days_in_month(r.0 as int, r.1 as int),
        days_to_date(r.0 as int, r.1 as int, r.2 as int) == secs / 86400,
        r.3 < 24,
        r.4 < 60,
        r.5 < 60,
        r.3 * 3600 + r.4 * 60 + r.5 == secs % 86400,
{
    proof {
        lemma_epoch_to_ymd_hms_is_calendar(secs as nat);
    }
    let s = secs % 60;
    let m = (secs / 60) % 60;
    let h = (secs / 3600) % 24;
    let days = secs / 86400;
    let z = days + 719_468;
    let era = z / 146_097;
    let doe = z % 146_097;
    proof {
        lemma_era_bounds(doe as nat);
        assert(era <= u64::MAX / 146097) by (nonlinear_arith)
            requires
                era == z / 146097,
                z <= u64::MAX,
        ;
    }
    let yoe = (doe - doe / 1460 + doe / 36524 - doe / 146_096) / 365;
    let y = yoe + era * 400;
    let doy = doe - (365 * yoe + yoe / 4 - yoe / 100);
    let mp = (5 * doy + 2) / 153;
    proof {
        assert(mp <= 11) by (nonlinear_arith)
            requires
                mp == (5 * doy + 2) / 153,
                doy <= 365,
        ;
        assert((153 * mp + 2) / 5 <= doy) by (nonlinear_arith)
            requires
                mp == (5 * doy + 2) / 153,
        ;
    }
    let d = doy - (153 * mp + 2) / 5 + 1;
    let mo = if mp < 10 {
        mp + 3
    } else {
        mp - 9
    };
    let y = if mo <= 2 {
        y + 1
    } else {
        y
    };
    (y, mo, d, h, m, s)
}

/// The decimal digits of `n`, left-padded with zeros to `width` digits.
pub open spec fn pad_dec(n: nat, width: nat) -> Seq<char> {
    let digits = dec_nat(n);
    if digits.len() >= width {
        digits
    } else {
        Seq::new((width - digits.len()) as nat, |i: int| '0') + digits
    }
}

/// `YYYY-MM-DDTHH:MM:SSZ` for the civil time of `secs` seconds after the
/// epoch (years past 9999 take more digits).
pub open spec fn spec_rfc3339(secs: nat) -> Seq<char> {
    let t = spec_epoch_to_ymd_hms(secs);
    pad_dec(t.0, 4) + seq!['-'] + pad_dec(t.1, 2) + seq!['-'] + pad_dec(t.2, 2) + seq!['T']
        + pad_dec(t.3, 2) + seq![':'] + pad_dec(t.4, 2) + seq![':'] + pad_dec(t.5, 2) + seq!['Z']
}

/// Appends the digits of `n`, left-padded with zeros to `width` digits.
fn push_padded(s: &mut String, n: u64, width: usize)
    ensures
        final(s)@ == old(s)@ + pad_dec(n as nat, width as nat),
{
    let digits = u64_to_dec(n);
    let ghost s0 = s@;
    if digits.len() < width {
        let pad = width - digits.len();
        let mut i: usize = 0;
        while i < pad
            invariant
                i <= pad,
                s@ == s0 + Seq::new(i as nat, |k: int| '0'),
            decreases pad - i,
        {
            push_char(s, '0');
            i = i + 1;
            assert(s@ =~= s0 + Seq::new(i as nat, |k: int| '0'));
        }
        push_chars(s, &digits);
        assert(s@ =~= s0 + (Seq::new(pad as nat, |k: int| '0') + digits@));
    } else {
        push_chars(s, &digits);
    }
}

/// `YYYY-MM-DDTHH:MM:SSZ` for `secs` seconds after the Unix epoch.
pub fn format_rfc3339(secs: u64) -> (r: String)
    ensures
        r@ == spec_rfc3339(secs as nat),
{
    let (y, mo, d, h, mi, s) = epoch_to_ymd_hms(secs);
    let mut r = String::new();
    push_padded(&mut r, y, 4);
    push_char(&mut r, '-');
    push_padded(&mut r, mo, 2);
    push_char(&mut r, '-');
    push_padded(&mut r, d, 2);
    push_char(&mut r, 'T');
    push_padded(&mut r, h, 2);
    push_char(&mut r, ':');
    push_padded(&mut r, mi, 2);
    push_char(&mut r, ':');
    push_padded(&mut r, s, 2);
    push_char(&mut r, 'Z');
    proof {
        assert(Seq::<char>::empty() + pad_dec(y as nat, 4) =~= pad_dec(y as nat, 4));
        assert(r@ =~= spec_rfc3339(secs as nat));
    }
    r
}

/// The timestamp of a clock reading: `YYYY-MM-DDTHH:MM:SSZ` for a reading
/// in seconds since the epoch, and the epoch itself for a clock that reads
/// before it.
pub fn rfc3339_of_reading(reading: Option<u64>) -> (r: String)
    ensures
        r@ == spec_rfc3339(
            match reading {
                Some(s) => s as nat,
                None => 0,
            },
        ),
{
    match reading {
        Some(s) => format_rfc3339(s),
        None => format_rfc3339(0),
    }
}

/// The current time as `YYYY-MM-DDTHH:MM:SSZ` (UTC); a clock that reads
/// before the epoch gives the epoch, `1970-01-01T00:00:00Z`.
pub fn now_rfc3339() -> (r: String)
    ensures
        exists|secs: nat| r@ == spec_rfc3339(secs),
{
    let reading = system_clock_secs();
    rfc3339_of_reading(reading)
}

} // verus!

verus! {

// ---------------------------------------------------------------------------
// The Gregorian calendar
// ---------------------------------------------------------------------------
/// A Gregorian leap year.
pub open spec fn is_leap_year(y: int) -> bool {
    y % 4 == 0 && (y % 100 != 0 || y % 400 == 0)
}

/// Number of days of month `m` (1 to 12) of year `y`.
pub open spec fn days_in_month(y: int, m: int) -> int {
    if m == 2 {
        if is_leap_year(y) {
            29
        } else {
            28
        }
    } else if m == 4 || m == 6 || m == 9 || m == 11 {
        30
    } else {
        31
    }
}

/// Days of year `y` before the first of month `m`.
pub open spec fn days_before_month(y: int, m: int) -> int
    decreases m,
{
    if m <= 1 {
        0
    } else {
        days_before_month(y, m - 1) + days_in_month(y, m - 1)
    }
}

/// Number of days of year `y`.
pub open spec fn days_in_year(y: int) -> int {
    if is_leap_year(y) {
        366
    } else {
        365
    }
}

/// Days from 1970-01-01 to the first of January of year `y` (from 1970).
pub open spec fn days_to_year(y: int) -> int
    decreases y - 1970,
{
    if y <= 1970 {
        0
    } else {
        days_to_year(y - 1) + days_in_year(y - 1)
    }
}

/// Days from 1970-01-01 to the date `y`-`m`-`d`.
pub open spec fn days_to_date(y: int, m: int, d: int) -> int {
    days_to_year(y) + days_before_month(y, m) + d - 1
}

/// Days from 0000-03-01 to the first of March of year `y`.
spec fn march_days(y: int) -> int {
    365 * y + y / 4 - y / 100 + y / 400
}

proof fn lemma_march_days_step(y: int)
    requires
        y >= 1,
    ensures
        march_days(y) - march_days(y - 1) == days_in_year(y),
{
}

proof fn lemma_days_to_year(y: int)
    requires
        y >= 1970,
    ensures
        days_to_year(y) == march_days(y - 1) + 306 - 719468,
    decreases y - 1970,
{
    if y > 1970 {
        lemma_days_to_year(y - 1);
        lemma_march_days_step(y - 1);
    }
}

proof fn lemma_march_days_era(e: int, k: int)
    requires
        e >= 0,
        0 <= k <= 400,
    ensures
        march_days(400 * e + k) == 146097 * e + (if k >= 400 {
            146097
        } else {
            365 * k + k / 4 - k / 100
        }),
{
    assert((400 * e + k) / 4 == 100 * e + k / 4);
    assert((400 * e + k) / 100 == 4 * e + k / 100);
    assert((400 * e + k) / 400 == e + k / 400);
}

proof fn lemma_days_before_month_values(y: int)
    ensures
        days_before_month(y, 1) == 0,
        days_before_month(y, 2) == 31,
        days_before_month(y, 3) == 59 + (if is_leap_year(y) {
            1int
        } else {
            0
        }),
        days_before_month(y, 12) == 334 + (if is_leap_year(y) {
            1int
        } else {
            0
        }),
{
    reveal_with_fuel(days_before_month, 13);
}

proof fn lemma_year_of_era(doe: u32)
    requires
        doe < 146097,
    ensures
        ({
            let yoe = (doe - doe / 1460 + doe / 36524 - doe / 146096) / 365;
            &&& yoe < 400
            &&& 365 * yoe + yoe / 4 - yoe / 100 <= doe
            &&& (yoe < 399 ==> doe < 365 * (yoe + 1) + (yoe + 1) / 4 - (yoe + 1) / 100)
        }),
{
    assert({
        let yoe = (doe - doe / 1460 + doe / 36524 - doe / 146096) / 365;
        &&& yoe < 400
        &&& 365 * yoe + yoe / 4 - yoe / 100 <= doe
        &&& (yoe < 399 ==> doe < 365 * (yoe + 1) + (yoe + 1) / 4 - (yoe + 1) / 100)
    }) by (bit_vector)
        requires
            doe < 146097,
    ;
}

proof fn lemma_month_of_year(doy: u32)
    requires
        doy < 366,
    ensures
        ({
            let mp = (5 * doy + 2) / 153;
            &&& mp <= 11
            &&& (153 * mp + 2) / 5 <= doy
            &&& (mp < 11 ==> doy < (153 * (mp + 1) + 2) / 5)
        }),
{
    assert({
        let mp = (5 * doy + 2) / 153;
        &&& mp <= 11
        &&& (153 * mp + 2) / 5 <= doy
        &&& (mp < 11 ==> doy < (153 * (mp + 1) + 2) / 5)
    }) by (bit_vector)
        requires
            doy < 366,
    ;
}

} // verus!

verus! {

proof fn lemma_march_days_mono(a: int, b: int)
    requires
        0 <= a <= b,
    ensures
        march_days(a) <= march_days(b),
    decreases b - a,
{
    if a < b {
        lemma_march_days_mono(a, b - 1);
        lemma_march_days_step(b);
    }
}

proof fn lemma_days_before_month_from_march(y: int, m: int)
    requires
        3 <= m <= 12,
    ensures
        days_before_month(y, m) == 59 + (if is_leap_year(y) {
            1int
        } else {
            0
        }) + (153 * (m - 3) + 2) / 5,
        m < 12 ==> days_in_month(y, m) == (153 * (m - 2) + 2) / 5 - (153 * (m - 3) + 2) / 5,
        m == 12 ==> days_in_month(y, m) == 31,
{
    reveal_with_fuel(days_before_month, 13);
}

proof fn lemma_time_of_day(secs: nat)
    ensures
        ((secs / 3600) % 24) * 3600 + ((secs / 60) % 60) * 60 + secs % 60 == secs % 86400,
{
    let r = secs % 86400;
    let q = secs / 86400;
    assert(secs == 86400 * q + r && r < 86400) by (nonlinear_arith)
        requires
            r == secs % 86400,
            q == secs / 86400,
    ;
    assert((secs / 3600) % 24 == r / 3600) by (nonlinear_arith)
        requires
            secs == 86400 * q + r,
            0 <= r < 86400,
            q >= 0,
    ;
    assert((secs / 60) % 60 == (r / 60) % 60) by (nonlinear_arith)
        requires
            secs == 86400 * q + r,
            0 <= r < 86400,
            q >= 0,
    ;
    assert(secs % 60 == r % 60) by (nonlinear_arith)
        requires
            secs == 86400 * q + r,
            0 <= r < 86400,
            q >= 0,
    ;
    assert((r / 3600) * 3600 + ((r / 60) % 60) * 60 + r % 60 == r) by (nonlinear_arith)
        requires
            0 <= r < 86400,
    ;
}

/// The conversion gives a real calendar date and time: the year is 1970 or
/// later, the month is 1 to 12, the day exists in that month, the date lies
/// `secs / 86400` days after 1970-01-01, and the time of day is the rest of
/// `secs` in hours, minutes and seconds.
pub proof fn lemma_epoch_to_ymd_hms_is_calendar(secs: nat)
    ensures
        ({
            let t = spec_epoch_to_ymd_hms(secs);
            &&& t.0 >= 1970
            &&& 1 <= t.1 <= 12
            &&& 1 <= t.2 <= days_in_month(t.0 as int, t.1 as int)
            &&& days_to_date(t.0 as int, t.1 as int, t.2 as int) == secs / 86400
            &&& t.3 < 24 && t.4 < 60 && t.5 < 60
            &&& t.3 * 3600 + t.4 * 60 + t.5 == secs % 86400
        }),
{
    lemma_time_of_day(secs);
    let days = secs / 86400;
    let z = days + 719468;
    let era = z / 146097;
    let doe = z % 146097;
    assert(z == 146097 * era + doe && doe < 146097) by (nonlinear_arith)
        requires
            era == z / 146097,
            doe == z % 146097,
    ;
    lemma_year_of_era(doe as u32);
    let yoe: int = (doe - doe / 1460 + doe / 36524 - doe / 146096) / 365;
    let ys: int = 365 * yoe + yoe / 4 - yoe / 100;
    let doy: int = doe - ys;
    let y: int = yoe + era * 400;
    lemma_march_days_era(era as int, yoe);
    lemma_march_days_era(era as int, yoe + 1);
    assert(z == march_days(y) + doy);
    assert(z < march_days(y + 1));
    lemma_march_days_step(y + 1);
    assert(doy < days_in_year(y + 1));
    lemma_month_of_year(doy as u32);
    let mp: int = (5 * doy + 2) / 153;
    let b: int = (153 * mp + 2) / 5;
    let d: int = doy - b + 1;
    assert(march_days(1969) == 719162);
    assert(days_in_year(1970) == 365);
    let t = spec_epoch_to_ymd_hms(secs);
    if mp < 10 {
        assert(doy < 306) by {
            assert((153 * (mp + 1) + 2) / 5 <= 306) by (nonlinear_arith)
                requires
                    mp <= 9,
            ;
        }
        if y < 1970 {
            lemma_march_days_mono(y, 1969);
        }
        assert(y >= 1970);
        assert(t.0 == y && t.1 == mp + 3 && t.2 == d);
        lemma_days_to_year(y);
        lemma_march_days_step(y);
        lemma_days_before_month_from_march(y, mp + 3);
    } else {
        if y < 1969 {
            lemma_march_days_mono(y + 1, 1969);
        }
        assert(y >= 1969);
        assert(t.0 == y + 1 && t.1 == mp - 9 && t.2 == d);
        lemma_days_to_year(y + 1);
        lemma_days_before_month_values(y + 1);
        if mp == 10 {
            assert(b == 306);
            assert((153 * 11 + 2) / 5 == 337);
        } else {
            assert(b == 337);
        }
    }
}

} // verus!
