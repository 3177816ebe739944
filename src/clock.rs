use chrono::{Datelike, Timelike};
use vstd::prelude::*;
use crate::keys::{bucket_key, bucket_key_text, BucketTime};

verus! {

/// Leap years of the proleptic Gregorian calendar.
pub open spec fn is_leap_year(y: int) -> bool {
    (y % 4 == 0 && y % 100 != 0) || y % 400 == 0
}

/// Number of days in month `m` (1 to 12) of year `y`.
pub open spec fn days_in_month(y: int, m: int) -> int {
    if m == 2 {
        if is_leap_year(y) {
            29
        } else {
            28
        }
    } else if m == 4 || m == 6 || m == 9 || m == 11 {
        30
    } else {
        31
    }
}

/// Number of days from 1970-01-01 to the proleptic Gregorian date `y-m-d`
/// (negative before it). `/` and `%` on `int` round towards negative infinity
/// for a positive divisor.
pub open spec fn days_from_civil(y: int, m: int, d: int) -> int {
    let yy = if m <= 2 { y - 1 } else { y };
    let era = yy / 400;
    let yoe = yy - era * 400;
    let mp = if m > 2 { m - 3 } else { m + 9 };
    let doy = (153 * mp + 2) / 5 + d - 1;
    let doe = yoe * 365 + yoe / 4 - yoe / 100 + doy;
    era * 146097 + doe - 719468
}

/// `days_from_civil(yy, 3, 1) + 719468`: the part of `days_from_civil` that
/// depends on the March-based year alone.
pub open spec fn year_base(yy: int) -> int {
    let era = yy / 400;
    let yoe = yy - era * 400;
    era * 146097 + yoe * 365 + yoe / 4 - yoe / 100
}

proof fn lemma_year_base_step(y: int)
    ensures
        year_base(y) - year_base(y - 1) == if is_leap_year(y) { 366int } else { 365int },
{
    let q = (y - 1) / 400;
    let r = (y - 1) % 400;
    assert(y - 1 == 400 * q + r && 0 <= r < 400) by (nonlinear_arith)
        requires q == (y - 1) / 400, r == (y - 1) % 400;
    if r == 399 {
        assert(y / 400 == q + 1 && y % 400 == 0) by (nonlinear_arith)
            requires y - 1 == 400 * q + 399;
        assert(y % 4 == 0 && y % 100 == 0) by (nonlinear_arith)
            requires y == 400 * (q + 1);
    } else {
        assert(y / 400 == q && y % 400 == r + 1) by (nonlinear_arith)
            requires y == 400 * q + r + 1, 0 <= r < 399;
        assert(y % 4 == (r + 1) % 4 && y % 100 == (r + 1) % 100) by (nonlinear_arith)
            requires y == 400 * q + r + 1;
        assert((r + 1) / 4 - r / 4 == if (r + 1) % 4 == 0 { 1int } else { 0int }) by (nonlinear_arith)
            requires 0 <= r;
        assert((r + 1) / 100 - r / 100 == if (r + 1) % 100 == 0 { 1int } else { 0int }) by (nonlinear_arith)
            requires 0 <= r;
    }
}

/// `t` is the UTC calendar time, to the minute, of the Unix timestamp `secs`.
pub open spec fn is_utc_time_of(t: BucketTime, secs: int) -> bool {
    &&& 1 <= t.month <= 12
    &&& 1 <= t.day <= days_in_month(t.year as int, t.month as int)
    &&& days_from_civil(t.year as int, t.month as int, t.day as int) == secs / 86400
    &&& t.hour == (secs % 86400) / 3600
    &&& t.minute == (secs % 86400) / 60 % 60
}

proof fn lemma_civil_parts(y: int, m: int, d: int)
    requires
        1 <= m <= 12,
    ensures
        days_from_civil(y, m, d) == year_base(if m <= 2 { y - 1 } else { y }) + (153 * (if m > 2 {
            m - 3
        } else {
            m + 9
        }) + 2) / 5 + d - 1 - 719468,
{
}

/// The first day of the month after `m` of year `y` comes `days_in_month(y, m)`
/// days after the first day of `m`.
proof fn lemma_month_step(y: int, m: int)
    requires
        1 <= m <= 12,
    ensures
        m < 12 ==> days_from_civil(y, m + 1, 1) == days_from_civil(y, m, 1) + days_in_month(y, m),
        m == 12 ==> days_from_civil(y + 1, 1, 1) == days_from_civil(y, m, 1) + days_in_month(y, m),
{
    lemma_civil_parts(y, m, 1);
    if m < 12 {
        lemma_civil_parts(y, m + 1, 1);
    } else {
        lemma_civil_parts(y + 1, 1, 1);
    }
    if m == 2 {
        lemma_year_base_step(y);
    }
}

/// Month index that orders (year, month) pairs.
pub open spec fn month_index(y: int, m: int) -> int {
    12 * y + m
}

/// Every valid day of an earlier month comes before the first day of a later one.
proof fn lemma_month_order(y1: int, m1: int, y2: int, m2: int)
    requires
        1 <= m1 <= 12,
        1 <= m2 <= 12,
        month_index(y1, m1) < month_index(y2, m2),
    ensures
        days_from_civil(y1, m1, 1) + days_in_month(y1, m1) <= days_from_civil(y2, m2, 1),
    decreases month_index(y2, m2) - month_index(y1, m1),
{
    lemma_month_step(y1, m1);
    let (ny, nm) = if m1 < 12 { (y1, m1 + 1) } else { (y1 + 1, 1int) };
    if month_index(ny, nm) < month_index(y2, m2) {
        lemma_month_order(ny, nm, y2, m2);
        lemma_month_step(ny, nm);
    } else {
        assert(ny == y2 && nm == m2);
    }
}

/// A day count names at most one valid calendar date.
pub proof fn lemma_civil_unique(y1: int, m1: int, d1: int, y2: int, m2: int, d2: int)
    requires
        1 <= m1 <= 12,
        1 <= d1 <= days_in_month(y1, m1),
        1 <= m2 <= 12,
        1 <= d2 <= days_in_month(y2, m2),
        days_from_civil(y1, m1, d1) == days_from_civil(y2, m2, d2),
    ensures
        y1 == y2 && m1 == m2 && d1 == d2,
{
    lemma_civil_parts(y1, m1, d1);
    lemma_civil_parts(y1, m1, 1);
    lemma_civil_parts(y2, m2, d2);
    lemma_civil_parts(y2, m2, 1);
    if month_index(y1, m1) < month_index(y2, m2) {
        lemma_month_order(y1, m1, y2, m2);
    } else if month_index(y2, m2) < month_index(y1, m1) {
        lemma_month_order(y2, m2, y1, m1);
    } else {
        if y1 < y2 {
            assert(month_index(y1, m1) < month_index(y2, m2));
        } else if y2 < y1 {
            assert(month_index(y2, m2) < month_index(y1, m1));
        }
    }
}

/// An instant has one UTC calendar time to the minute.
pub proof fn lemma_utc_time_unique(t1: BucketTime, t2: BucketTime, secs: int)
    requires
        is_utc_time_of(t1, secs),
        is_utc_time_of(t2, secs),
    ensures
        t1 == t2,
{
    lemma_civil_unique(
        t1.year as int,
        t1.month as int,
        t1.day as int,
        t2.year as int,
        t2.month as int,
        t2.day as int,
    );
}

/// Timestamps within about 34,000 years of 1970, well inside the calendar
/// range of the date library.
pub open spec fn in_calendar_range(secs: int) -> bool {
    -1_099_511_627_776 <= secs <= 1_099_511_627_776
}

/// Relies on chrono's `DateTime::<Utc>::from_timestamp` with its `year`, `month`,
/// `day`, `hour` and `minute` accessors: the proleptic Gregorian UTC calendar
/// fields of a Unix timestamp, or `None` past chrono's year range (about
/// 262,000 years either side of year 0).
#[verifier::external_body]
fn utc_time_at(secs: i64) -> (r: Option<BucketTime>)
    ensures
        r matches Some(t) ==> is_utc_time_of(t, secs as int),
        in_calendar_range(secs as int) ==> r is Some,
{
    match chrono::DateTime::<chrono::Utc>::from_timestamp(secs, 0) {
        Some(d) => Some(
            BucketTime {
                year: d.year(),
                month: d.month(),
                day: d.day(),
                hour: d.hour(),
                minute: d.minute(),
            },
        ),
        None => None,
    }
}

/// The Unix timestamp of the `i`-th bucket back from `now`, shifted by
/// `gmt_offset_hours`.
pub open spec fn bucket_instant(now: int, gmt_offset_hours: int, i: int) -> int {
    now + gmt_offset_hours * 3600 - i * 60
}

pub open spec fn fits_i64(x: int) -> bool {
    i64::MIN <= x <= i64::MAX
}

/// `key` is the key of the `i`-th bucket back from `now`.
pub open spec fn is_bucket_key(
    key: Seq<char>,
    symbol: Seq<char>,
    interval: Seq<char>,
    gmt_offset_hours: int,
    now: int,
    i: int,
) -> bool {
    exists|t: BucketTime|
        is_utc_time_of(t, bucket_instant(now, gmt_offset_hours, i)) && key
            == bucket_key_text(symbol, t, interval)
}

/// Key derivation is deterministic: for one instant, offset, symbol and
/// interval, each bucket has exactly one key.
pub proof fn lemma_bucket_key_determined(
    k1: Seq<char>,
    k2: Seq<char>,
    symbol: Seq<char>,
    interval: Seq<char>,
    gmt_offset_hours: int,
    now: int,
    i: int,
)
    requires
        is_bucket_key(k1, symbol, interval, gmt_offset_hours, now, i),
        is_bucket_key(k2, symbol, interval, gmt_offset_hours, now, i),
    ensures
        k1 == k2,
{
    let instant = bucket_instant(now, gmt_offset_hours, i);
    let t1 = choose|t: BucketTime|
        is_utc_time_of(t, instant) && k1 == bucket_key_text(symbol, t, interval);
    let t2 = choose|t: BucketTime|
        is_utc_time_of(t, instant) && k2 == bucket_key_text(symbol, t, interval);
    lemma_utc_time_unique(t1, t2, instant);
}

/// The keys of the `count` minute buckets that end at `now_secs` shifted by
/// `gmt_offset_hours`, newest first. `None` when one of those instants lies
/// outside the calendar range; never `None` when all of them lie within
/// `in_calendar_range`.
pub fn bucket_keys(
    symbol: &str,
    interval: &str,
    count: usize,
    gmt_offset_hours: i32,
    now_secs: i64,
) -> (r: Option<Vec<String>>)
    ensures
        r matches Some(keys) ==> {
            &&& keys.len() == count
            &&& forall|i: int|
                0 <= i < count ==> #[trigger] is_bucket_key(
                    keys@[i]@,
                    symbol@,
                    interval@,
                    gmt_offset_hours as int,
                    now_secs as int,
                    i,
                )
        },
        (exists|i: int|
            0 <= i < count && !fits_i64(
                #[trigger] bucket_instant(now_secs as int, gmt_offset_hours as int, i),
            )) ==> r is None,
        (forall|i: int|
            0 <= i < count ==> in_calendar_range(
                #[trigger] bucket_instant(now_secs as int, gmt_offset_hours as int, i),
            )) ==> r is Some,
{
    let shifted: i128 = now_secs as i128 + (gmt_offset_hours as i128) * 3600;
    let mut keys: Vec<String> = Vec::new();
    let mut i: usize = 0;
    while i < count
        invariant
            i <= count,
            shifted == now_secs as int + gmt_offset_hours as int * 3600,
            keys.len() == i,
            forall|j: int|
                0 <= j < i ==> #[trigger] is_bucket_key(
                    keys@[j]@,
                    symbol@,
                    interval@,
                    gmt_offset_hours as int,
                    now_secs as int,
                    j,
                ),
            forall|j: int|
                0 <= j < i ==> fits_i64(
                    #[trigger] bucket_instant(now_secs as int, gmt_offset_hours as int, j),
                ),
        decreases count - i,
    {
        let instant: i128 = shifted - (i as i128) * 60;
        assert(instant == bucket_instant(now_secs as int, gmt_offset_hours as int, i as int));
        if instant < i64::MIN as i128 || instant > i64::MAX as i128 {
            return None;
        }
        match utc_time_at(instant as i64) {
            Some(t) => {
                let key = bucket_key(symbol, &t, interval);
                keys.push(key);
                assert(is_bucket_key(
                    keys@[i as int]@,
                    symbol@,
                    interval@,
                    gmt_offset_hours as int,
                    now_secs as int,
                    i as int,
                ));
            },
            None => {
                return None;
            },
        }
        i = i + 1;
    }
    Some(keys)
}

} // verus!
