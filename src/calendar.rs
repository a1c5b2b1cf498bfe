use vstd::prelude::*;
use chrono::{Datelike, TimeZone, Timelike, Utc};

verus! {

/// The first second that has a date: January 1 of year -262143, 00:00:00 UTC.
pub const MIN_TIMESTAMP: i64 = -8334601228800;

/// The last second that has a date: December 31 of year 262142, 23:59:59 UTC.
pub const MAX_TIMESTAMP: i64 = 8210266876799;

/// A UTC calendar date and hour.
#[derive(Clone, Copy, Debug, PartialEq, Eq, Structural)]
pub struct UtcTime {
    pub year: i32,
    /// 1 to 12.
    pub month: u32,
    /// 1 to 31.
    pub day: u32,
    /// 0 to 23.
    pub hour: u32,
}

/// The proleptic Gregorian date (year, month, day) of day `z0`, where day 0
/// is January 1, 1970.
pub open spec fn civil_from_days(z0: int) -> (int, int, int) {
    let z = z0 + 719468;
    let era = z / 146097;
    let doe = z - era * 146097;
    let yoe = (doe - doe / 1460 + doe / 36524 - doe / 146096) / 365;
    let y = yoe + era * 400;
    let doy = doe - (365 * yoe + yoe / 4 - yoe / 100);
    let mp = (5 * doy + 2) / 153;
    let d = doy - (153 * mp + 2) / 5 + 1;
    let m = if mp < 10 {
        mp + 3
    } else {
        mp - 9
    };
    (if m <= 2 {
        y + 1
    } else {
        y
    }, m, d)
}

/// Whether second `ts` since the Unix epoch has a date.
pub open spec fn in_calendar(ts: int) -> bool {
    MIN_TIMESTAMP <= ts <= MAX_TIMESTAMP
}

/// The UTC date and hour of second `ts` since the Unix epoch.
pub open spec fn utc_time_of(ts: int) -> UtcTime {
    let (y, m, d) = civil_from_days(ts / 86400);
    UtcTime { year: y as i32, month: m as u32, day: d as u32, hour: ((ts % 86400) / 3600) as u32 }
}

/// Relies on chrono's `Utc.timestamp_opt(ts, 0)`, which gives the proleptic
/// Gregorian UTC date and time of second `ts` since the Unix epoch, or none
/// where its year would fall outside -262143 to 262142; and on the `year`,
/// `month`, `day` and `hour` of the result.
#[verifier::external_body]
pub(crate) fn utc_time_at(ts: i64) -> (r: Option<UtcTime>)
    ensures
        r is Some <==> in_calendar(ts as int),
        r matches Some(t) ==> t == utc_time_of(ts as int),
{
    match Utc.timestamp_opt(ts, 0).single() {
        Some(d) => Some(UtcTime { year: d.year(), month: d.month(), day: d.day(), hour: d.hour() }),
        None => None,
    }
}

} // verus!
