use chrono::Timelike;
use vstd::prelude::*;

verus! {

/// Off-peak price (7.50), in thousandths of a currency unit.
pub const OFF_PEAK_RATE: u32 = 7500;

/// Peak price (29.560), in thousandths of a currency unit.
pub const PEAK_RATE: u32 = 29560;

/// Start of the off-peak window, 23:30:00, in seconds since midnight.
pub const OFF_PEAK_START: u32 = 84600;

/// End of the off-peak window, 05:30:00, in seconds since midnight (exclusive).
pub const OFF_PEAK_END: u32 = 19800;

/// A clock time within one day, to the second.
#[derive(Clone, Copy, Debug, PartialEq, Eq, Structural)]
pub struct TimeOfDay {
    pub hour: u32,
    pub minute: u32,
    pub second: u32,
}

impl TimeOfDay {
    /// Every component lies in its range.
    pub open spec fn wf(self) -> bool {
        self.hour < 24 && self.minute < 60 && self.second < 60
    }

    /// Seconds elapsed since midnight.
    pub open spec fn seconds_of_day(self) -> int {
        self.hour * 3600 + self.minute * 60 + self.second
    }

    /// Builds a time of day, or `None` where a component is out of range.
    pub fn new(hour: u32, minute: u32, second: u32) -> (r: Option<TimeOfDay>)
        ensures
            r.is_some() <==> (hour < 24 && minute < 60 && second < 60),
            r.is_some() ==> r == Some(TimeOfDay { hour, minute, second }),
    {
        match naive_time_hms(hour, minute, second) {
            Some((h, m, s)) => Some(TimeOfDay { hour: h, minute: m, second: s }),
            None => None,
        }
    }
}

/// Relies on chrono's `NaiveTime::from_hms_opt`: `None` exactly when the hour,
/// minute or second is out of range, else a time with those components.
#[verifier::external_body]
pub(crate) fn naive_time_hms(hour: u32, minute: u32, second: u32) -> (r: Option<(u32, u32, u32)>)
    ensures
        r.is_some() <==> (hour < 24 && minute < 60 && second < 60),
        r.is_some() ==> r == Some((hour, minute, second)),
{
    match chrono::NaiveTime::from_hms_opt(hour, minute, second) {
        Some(t) => Some((t.hour(), t.minute(), t.second())),
        None => None,
    }
}

/// The off-peak window: [23:30:00, 24:00:00) together with [00:00:00, 05:30:00).
pub open spec fn in_off_peak_window(t: TimeOfDay) -> bool {
    t.seconds_of_day() >= OFF_PEAK_START || t.seconds_of_day() < OFF_PEAK_END
}

/// The tariff at a time of day, in thousandths of a currency unit.
pub open spec fn rate_at(t: TimeOfDay) -> u32 {
    if in_off_peak_window(t) {
        OFF_PEAK_RATE
    } else {
        PEAK_RATE
    }
}

/// The price that applies at `time`; the date plays no part.
pub fn electricity_rate(time: TimeOfDay) -> (r: u32)
    requires
        time.wf(),
    ensures
        r == rate_at(time),
        r == OFF_PEAK_RATE <==> in_off_peak_window(time),
        r == PEAK_RATE <==> !in_off_peak_window(time),
{
    if (time.hour == 23 && time.minute >= 30) || time.hour < 5 || (time.hour == 5 && time.minute < 30) {
        return OFF_PEAK_RATE;
    }
    PEAK_RATE
}

/// `a / b` rounded toward zero, for `b > 0`.
pub open spec fn div_toward_zero(a: int, b: int) -> int {
    if a >= 0 {
        a / b
    } else {
        -((-a) / b)
    }
}

/// The magnitude of `a`.
pub open spec fn abs(a: int) -> int {
    if a >= 0 {
        a
    } else {
        -a
    }
}

/// Average power over `period` seconds of `energy` joules: zero where the
/// energy is zero or smaller in magnitude than the period, else the quotient
/// rounded toward zero.
pub open spec fn watts_of(energy: int, period: int) -> int {
    if energy == 0 || abs(energy) < period {
        0
    } else {
        div_toward_zero(energy, period)
    }
}

/// Average power, in watts, of `value` joules spread over `period_seconds`.
pub fn joules_to_watts(value: i64, period_seconds: u64) -> (r: i64)
    requires
        period_seconds > 0,
    ensures
        r == watts_of(value as int, period_seconds as int),
{
    let magnitude: u64 = if value >= 0 {
        value as u64
    } else {
        (-(value as i128)) as u64
    };
    if value == 0 || magnitude < period_seconds {
        return 0;
    }
    let q: u64 = magnitude / period_seconds;
    assert(q <= magnitude) by (nonlinear_arith)
        requires
            q == magnitude / period_seconds,
            period_seconds > 0,
    ;
    if value >= 0 {
        q as i64
    } else {
        (-(q as i128)) as i64
    }
}

} // verus!
