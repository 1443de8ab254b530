//! Wall-clock instants, broken down into the calendar fields that records
//! are stamped with.

use vstd::prelude::*;

verus! {

/// One instant of UTC wall-clock time, at microsecond precision.
#[derive(Clone, Copy, Debug, PartialEq, Eq, Structural)]
pub struct Timestamp {
    pub year: u32,
    /// Month of the year, counted from 1.
    pub month: u8,
    /// Day of the month, counted from 1.
    pub day: u8,
    pub hour: u8,
    pub minute: u8,
    /// Seconds within the minute; 60 admits a leap second.
    pub second: u8,
    /// Microseconds within the second.
    pub micros: u32,
}

impl Timestamp {
    /// The calendar fields lie in their ranges.
    pub open spec fn wf(self) -> bool {
        &&& 1 <= self.month <= 12
        &&& 1 <= self.day <= 31
        &&& self.hour <= 23
        &&& self.minute <= 59
        &&& self.second <= 60
        &&& self.micros < 1000000
    }

    /// The placeholder instant used when the clock reports fields out of
    /// range: the start of 1970.
    pub open spec fn spec_epoch() -> Timestamp {
        Timestamp { year: 1970, month: 1, day: 1, hour: 0, minute: 0, second: 0, micros: 0 }
    }

    /// The placeholder instant used when the clock reports fields out of
    /// range: the start of 1970.
    pub fn epoch() -> (r: Timestamp)
        ensures
            r == Timestamp::spec_epoch(),
            r.wf(),
    {
        Timestamp { year: 1970, month: 1, day: 1, hour: 0, minute: 0, second: 0, micros: 0 }
    }

    /// Whether raw calendar fields, as a system clock reports them (year
    /// offset from 1900, month counted from 0, nanoseconds), are in range.
    pub open spec fn spec_raw_in_range(
        year1900: i32,
        mon0: i32,
        mday: i32,
        hour: i32,
        min: i32,
        sec: i32,
        nsec: i32,
    ) -> bool {
        &&& year1900 >= -1900
        &&& 0 <= mon0 <= 11
        &&& 1 <= mday <= 31
        &&& 0 <= hour <= 23
        &&& 0 <= min <= 59
        &&& 0 <= sec <= 60
        &&& 0 <= nsec < 1000000000
    }

    /// Builds a timestamp from raw calendar fields as a system clock reports
    /// them: `Some` exactly when every field is in range, with the year
    /// rebased to 0, the month rebased to 1 and the nanoseconds cut to
    /// microseconds.
    pub fn from_raw_fields(
        year1900: i32,
        mon0: i32,
        mday: i32,
        hour: i32,
        min: i32,
        sec: i32,
        nsec: i32,
    ) -> (r: Option<Timestamp>)
        ensures
            r is Some <==> Timestamp::spec_raw_in_range(year1900, mon0, mday, hour, min, sec, nsec),
            r matches Some(t) ==> {
                &&& t.wf()
                &&& t.year == year1900 + 1900
                &&& t.month == mon0 + 1
                &&& t.day == mday
                &&& t.hour == hour
                &&& t.minute == min
                &&& t.second == sec
                &&& t.micros == nsec / 1000
            },
    {
        if year1900 >= -1900 && (0 <= mon0 && mon0 <= 11) && (1 <= mday && mday <= 31)
            && (0 <= hour && hour <= 23) && (0 <= min && min <= 59) && (0 <= sec && sec <= 60)
            && (0 <= nsec && nsec < 1000000000) {
            let year: i64 = year1900 as i64 + 1900;
            Some(
                Timestamp {
                    year: year as u32,
                    month: (mon0 + 1) as u8,
                    day: mday as u8,
                    hour: hour as u8,
                    minute: min as u8,
                    second: sec as u8,
                    micros: (nsec / 1000) as u32,
                },
            )
        } else {
            None
        }
    }
}

/// Relies on time::now_utc: the current UTC time broken down into calendar
/// fields, handed back raw as (years since 1900, months since January, day
/// of month, hour, minute, second, nanoseconds).  The ranges are the ones
/// time's documentation states for `Tm`; it documents no range for the
/// year.
#[verifier::external_body]
fn raw_now_utc() -> (r: (i32, i32, i32, i32, i32, i32, i32))
    ensures
        0 <= r.1 <= 11,
        1 <= r.2 <= 31,
        0 <= r.3 <= 23,
        0 <= r.4 <= 59,
        0 <= r.5 <= 60,
        0 <= r.6 < 1000000000,
{
    let tm = time::now_utc();
    (tm.tm_year, tm.tm_mon, tm.tm_mday, tm.tm_hour, tm.tm_min, tm.tm_sec, tm.tm_nsec)
}

/// The current UTC time, read from the system clock; the 1970 placeholder
/// when the clock reports a year out of range.
pub fn now_timestamp() -> (r: Timestamp)
    ensures
        r.wf(),
{
    let (year1900, mon0, mday, hour, min, sec, nsec) = raw_now_utc();
    match Timestamp::from_raw_fields(year1900, mon0, mday, hour, min, sec, nsec) {
        Some(t) => t,
        None => Timestamp::epoch(),
    }
}

} // verus!
