use crate::util::{
    electricity_rate, joules_to_watts, naive_time_hms, rate_at, watts_of, TimeOfDay,
};
use chrono::Datelike;
use vstd::prelude::*;
use vstd::string::*;

verus! {

/// Length, in seconds, of the period that each sample covers.
pub const SAMPLE_PERIOD: u64 = 60;

/// Earliest year that a calendar date may carry.
pub const MIN_YEAR: i32 = -262143;

/// Latest year that a calendar date may carry.
pub const MAX_YEAR: i32 = 262142;

pub open spec fn is_leap_year(y: int) -> bool {
    (y % 4 == 0 && y % 100 != 0) || y % 400 == 0
}

pub open spec fn days_in_month(y: int, m: int) -> int {
    if m == 2 {
        if is_leap_year(y) {
            29
        } else {
            28
        }
    } else if m == 4 || m == 6 || m == 9 || m == 11 {
        30
    } else {
        31
    }
}

/// A day of the proleptic Gregorian calendar within the supported years.
pub open spec fn valid_date(y: int, m: int, d: int) -> bool {
    MIN_YEAR <= y <= MAX_YEAR && 1 <= m <= 12 && 1 <= d <= days_in_month(y, m)
}

/// Relies on chrono's `NaiveDate::from_ymd_opt`: `None` on an out-of-range
/// year or an invalid month or day, else the date with those components.
#[verifier::external_body]
fn naive_date_ymd(year: i32, month: u32, day: u32) -> (r: Option<(i32, u32, u32)>)
    ensures
        r.is_some() <==> valid_date(year as int, month as int, day as int),
        r.is_some() ==> r == Some((year, month, day)),
{
    match chrono::NaiveDate::from_ymd_opt(year, month, day) {
        Some(d) => Some((d.year(), d.month(), d.day())),
        None => None,
    }
}

/// A UTC instant to the minute.
#[derive(Clone, Copy, Debug, PartialEq, Eq, Structural)]
pub struct Timestamp {
    pub year: i32,
    pub month: u32,
    pub day: u32,
    pub hour: u32,
    pub minute: u32,
}

/// The calendar and clock values name an existing minute.
pub open spec fn valid_timestamp(y: int, mo: int, d: int, h: int, mi: int) -> bool {
    valid_date(y, mo, d) && 0 <= h < 24 && 0 <= mi < 60
}

impl Timestamp {
    pub open spec fn wf(self) -> bool {
        valid_timestamp(
            self.year as int,
            self.month as int,
            self.day as int,
            self.hour as int,
            self.minute as int,
        )
    }

    /// The clock time of the instant, at second zero.
    pub open spec fn clock(self) -> TimeOfDay {
        TimeOfDay { hour: self.hour, minute: self.minute, second: 0 }
    }

    /// Builds the instant `year-month-day hour:minute:00 UTC`, or `None` where
    /// these values name no minute of the calendar.
    pub fn from_fields(year: i64, month: i64, day: i64, hour: i64, minute: i64) -> (r: Option<
        Timestamp,
    >)
        ensures
            r.is_some() <==> valid_timestamp(
                year as int,
                month as int,
                day as int,
                hour as int,
                minute as int,
            ),
            r.is_some() ==> r == Some(
                Timestamp {
                    year: year as i32,
                    month: month as u32,
                    day: day as u32,
                    hour: hour as u32,
                    minute: minute as u32,
                },
            ),
    {
        if year < MIN_YEAR as i64 || year > MAX_YEAR as i64 || month < 0 || month > 12 || day < 0
            || day > 31 || hour < 0 || hour >= 24 || minute < 0 || minute >= 60 {
            return None;
        }
        let date = naive_date_ymd(year as i32, month as u32, day as u32);
        let clock = naive_time_hms(hour as u32, minute as u32, 0);
        match (date, clock) {
            (Some((y, mo, d)), Some((h, mi, _))) => Some(
                Timestamp { year: y, month: mo, day: d, hour: h, minute: mi },
            ),
            _ => None,
        }
    }

    /// The clock time of the instant, at second zero.
    pub fn time_of_day(&self) -> (r: TimeOfDay)
        ensures
            r == self.clock(),
    {
        TimeOfDay { hour: self.hour, minute: self.minute, second: 0 }
    }
}

/// One field of a raw sample as the vendor's record holds it.
#[derive(Clone, Copy, Debug, PartialEq, Eq, Structural)]
pub enum RawField {
    /// The record has no such key.
    Missing,
    /// An integer, given as a number or as a string of digits.
    Number(i64),
    /// Present, but not an integer that fits in 64 bits.
    Malformed,
}

/// A per-minute sample as the vendor's cloud returns it: the calendar fields
/// of its minute and four energies, in joules, over that minute.
#[derive(Clone, Copy, Debug, PartialEq, Eq, Structural)]
pub struct RawSample {
    pub yr: RawField,
    pub mon: RawField,
    pub dom: RawField,
    pub hr: RawField,
    pub min: RawField,
    pub imp: RawField,
    pub exp: RawField,
    pub gep: RawField,
    pub h1b: RawField,
}

/// Why a run stops.
#[derive(Clone, Copy, Debug, PartialEq, Eq, Structural)]
pub enum ZappiError {
    /// A sample lacks its year, month or day of month.
    MissingField,
    /// A sample's calendar fields name no minute of the calendar.
    InvalidTimestamp,
    /// The discovery response names no host.
    MissingHeader,
    /// The day's response holds no collection under the device's key.
    MissingDayCollection,
}

/// One normalized minute: average powers in watts and the tariff in force.
#[derive(Clone, Copy, Debug, PartialEq, Eq, Structural)]
pub struct PerMinuteZappiData {
    pub time: Timestamp,
    pub imported_watts: i64,
    pub exported_watts: i64,
    pub generated_watts: i64,
    pub zappi_watts: i64,
    /// In thousandths of a currency unit.
    pub electricity_rate: u32,
}

/// The integer that a field holds, with 0 for one that is missing or not an
/// integer.
pub open spec fn value_or_zero(f: RawField) -> i64 {
    match f {
        RawField::Number(n) => n,
        _ => 0,
    }
}

/// The record has no such key.
pub open spec fn is_missing(f: RawField) -> bool {
    f == RawField::Missing
}

/// The key is there, but its value is no 64-bit integer.
pub open spec fn is_malformed(f: RawField) -> bool {
    f == RawField::Malformed
}

/// The watts of one energy field over a sample's minute.
pub open spec fn field_watts(f: RawField) -> i64 {
    watts_of(value_or_zero(f) as int, SAMPLE_PERIOD as int) as i64
}

/// The reading that a sample normalizes to, or why it does not.
pub open spec fn normalize(s: RawSample) -> Result<PerMinuteZappiData, ZappiError> {
    if is_missing(s.yr) || is_missing(s.mon) || is_missing(s.dom) {
        Err(ZappiError::MissingField)
    } else if is_malformed(s.yr) || is_malformed(s.mon) || is_malformed(s.dom) || is_malformed(
        s.hr,
    ) || is_malformed(s.min) {
        Err(ZappiError::InvalidTimestamp)
    } else if !valid_timestamp(
        value_or_zero(s.yr) as int,
        value_or_zero(s.mon) as int,
        value_or_zero(s.dom) as int,
        value_or_zero(s.hr) as int,
        value_or_zero(s.min) as int,
    ) {
        Err(ZappiError::InvalidTimestamp)
    } else {
        let time = Timestamp {
            year: value_or_zero(s.yr) as i32,
            month: value_or_zero(s.mon) as u32,
            day: value_or_zero(s.dom) as u32,
            hour: value_or_zero(s.hr) as u32,
            minute: value_or_zero(s.min) as u32,
        };
        Ok(
            PerMinuteZappiData {
                time,
                imported_watts: field_watts(s.imp),
                exported_watts: field_watts(s.exp),
                generated_watts: field_watts(s.gep),
                zappi_watts: field_watts(s.h1b),
                electricity_rate: rate_at(time.clock()),
            },
        )
    }
}

fn field_value(f: RawField) -> (r: i64)
    ensures
        r == value_or_zero(f),
{
    match f {
        RawField::Number(n) => n,
        _ => 0,
    }
}

fn power_field(f: RawField) -> (r: i64)
    ensures
        r == field_watts(f),
{
    joules_to_watts(field_value(f), SAMPLE_PERIOD)
}

impl PerMinuteZappiData {
    /// Normalizes one raw sample: rebuilds its UTC minute, turns each energy
    /// into average watts over that minute and looks up the tariff.
    pub fn new(data: RawSample) -> (r: Result<PerMinuteZappiData, ZappiError>)
        ensures
            r == normalize(data),
            r is Ok ==> r->Ok_0.time.wf(),
    {
        if matches!(data.yr, RawField::Missing) || matches!(data.mon, RawField::Missing)
            || matches!(data.dom, RawField::Missing) {
            return Err(ZappiError::MissingField);
        }
        if matches!(data.yr, RawField::Malformed) || matches!(data.mon, RawField::Malformed)
            || matches!(data.dom, RawField::Malformed) || matches!(data.hr, RawField::Malformed)
            || matches!(data.min, RawField::Malformed) {
            return Err(ZappiError::InvalidTimestamp);
        }
        let time = match Timestamp::from_fields(
            field_value(data.yr),
            field_value(data.mon),
            field_value(data.dom),
            field_value(data.hr),
            field_value(data.min),
        ) {
            Some(t) => t,
            None => {
                return Err(ZappiError::InvalidTimestamp);
            },
        };
        Ok(
            PerMinuteZappiData {
                time,
                imported_watts: power_field(data.imp),
                exported_watts: power_field(data.exp),
                generated_watts: power_field(data.gep),
                zappi_watts: power_field(data.h1b),
                electricity_rate: electricity_rate(time.time_of_day()),
            },
        )
    }
}

/// The readings of a day's samples, in the samples' order, or the error of
/// the first sample that does not normalize.
pub open spec fn normalize_all(samples: Seq<RawSample>) -> Result<
    Seq<PerMinuteZappiData>,
    ZappiError,
>
    decreases samples.len(),
{
    if samples.len() == 0 {
        Ok(Seq::empty())
    } else {
        match normalize_all(samples.drop_last()) {
            Err(e) => Err(e),
            Ok(prefix) => match normalize(samples.last()) {
                Err(e) => Err(e),
                Ok(reading) => Ok(prefix.push(reading)),
            },
        }
    }
}

/// Normalizes a day's samples one by one, keeping their order.
pub fn normalize_day(samples: &Vec<RawSample>) -> (r: Result<Vec<PerMinuteZappiData>, ZappiError>)
    ensures
        match r {
            Ok(v) => normalize_all(samples@) == Ok::<Seq<PerMinuteZappiData>, ZappiError>(v@),
            Err(e) => normalize_all(samples@) == Err::<Seq<PerMinuteZappiData>, ZappiError>(e),
        },
{
    let mut day_data: Vec<PerMinuteZappiData> = Vec::new();
    let mut i: usize = 0;
    while i < samples.len()
        invariant
            i <= samples.len(),
            normalize_all(samples@.subrange(0, i as int)) == Ok::<
                Seq<PerMinuteZappiData>,
                ZappiError,
            >(day_data@),
        decreases samples.len() - i,
    {
        let reading = PerMinuteZappiData::new(samples[i]);
        assert(samples@.subrange(0, i + 1).drop_last() == samples@.subrange(0, i as int));
        match reading {
            Ok(x) => {
                day_data.push(x);
            },
            Err(e) => {
                proof {
                    lemma_error_persists(samples@, i as int + 1);
                }
                return Err(e);
            },
        }
        i = i + 1;
    }
    assert(samples@.subrange(0, samples@.len() as int) == samples@);
    Ok(day_data)
}

/// Once a prefix fails to normalize, every longer prefix fails with the same
/// error.
proof fn lemma_error_persists(samples: Seq<RawSample>, k: int)
    requires
        0 < k <= samples.len(),
        normalize_all(samples.subrange(0, k)) is Err,
    ensures
        normalize_all(samples) == normalize_all(samples.subrange(0, k)),
    decreases samples.len() - k,
{
    if k < samples.len() {
        assert(samples.subrange(0, k + 1).drop_last() == samples.subrange(0, k));
        lemma_error_persists(samples, k + 1);
    } else {
        assert(samples.subrange(0, k) == samples);
    }
}

/// The host that answers which regional server holds an account.
pub const DIRECTOR_URL: &'static str = "https://director.myenergi.net";

/// The header of the discovery response that names the regional server.
pub const ASN_HEADER: &'static str = "x_myenergi-asn";

/// The measurement that the readings are written under.
pub const MEASUREMENT: &'static str = "zappi_data";

/// The regional host, taken from the discovery response's header.
pub fn resolve_host(header: Option<String>) -> (r: Result<String, ZappiError>)
    ensures
        match header {
            Some(h) => r matches Ok(host) && host@ == h@,
            None => r == Err::<String, ZappiError>(ZappiError::MissingHeader),
        },
{
    match header {
        Some(h) => Ok(h),
        None => Err(ZappiError::MissingHeader),
    }
}

/// The address of one day of a device's samples.
pub open spec fn day_url_of(asn: Seq<char>, serial_no: Seq<char>, date: Seq<char>) -> Seq<char> {
    "https://"@ + asn + "/cgi-jday-Z"@ + serial_no + "-"@ + date
}

/// The address of one day of a device's samples; `date` is written
/// `year-month-day` with month and day not zero-padded.
pub fn day_url(asn: &str, serial_no: &str, date: &str) -> (r: String)
    ensures
        r@ == day_url_of(asn@, serial_no@, date@),
{
    let mut url = String::from_str("https://");
    url.append(asn);
    url.append("/cgi-jday-Z");
    url.append(serial_no);
    url.append("-");
    url.append(date);
    url
}

/// The key under which the day's response holds a device's samples.
pub open spec fn response_key_of(serial_no: Seq<char>) -> Seq<char> {
    "U"@ + serial_no
}

/// The key under which the day's response holds a device's samples.
pub fn response_key(serial_no: &str) -> (r: String)
    ensures
        r@ == response_key_of(serial_no@),
{
    let mut key = String::from_str("U");
    key.append(serial_no);
    key
}

/// One key of the day's response with the samples held under it.
#[derive(Clone, Debug)]
pub struct ResponseEntry {
    pub key: String,
    pub samples: Vec<RawSample>,
}

/// The readings of the collection that the day's response holds under the
/// device's key: `MissingDayCollection` where no key matches, else those of
/// the first entry whose key matches.
pub fn readings_from_response(entries: &Vec<ResponseEntry>, serial_no: &str) -> (r: Result<
    Vec<PerMinuteZappiData>,
    ZappiError,
>)
    ensures
        (r == Err::<Vec<PerMinuteZappiData>, ZappiError>(ZappiError::MissingDayCollection)) <==> (
        forall|i: int|
            0 <= i < entries@.len() ==> entries@[i].key@ != response_key_of(serial_no@)),
        r != Err::<Vec<PerMinuteZappiData>, ZappiError>(ZappiError::MissingDayCollection) ==> (
        exists|i: int|
            0 <= i < entries@.len() && entries@[i].key@ == response_key_of(serial_no@) && (forall|
                j: int,
            |
                0 <= j < i ==> entries@[j].key@ != response_key_of(serial_no@)) && match r {
                Ok(v) => normalize_all(entries@[i].samples@) == Ok::<
                    Seq<PerMinuteZappiData>,
                    ZappiError,
                >(v@),
                Err(e) => normalize_all(entries@[i].samples@) == Err::<
                    Seq<PerMinuteZappiData>,
                    ZappiError,
                >(e),
            }),
{
    let key = response_key(serial_no);
    let mut i: usize = 0;
    while i < entries.len()
        invariant
            i <= entries.len(),
            key@ == response_key_of(serial_no@),
            forall|j: int| 0 <= j < i ==> entries@[j].key@ != response_key_of(serial_no@),
        decreases entries.len() - i,
    {
        if entries[i].key == key {
            let r = normalize_day(&entries[i].samples);
            proof {
                lemma_normalize_all_no_missing_collection(entries@[i as int].samples@);
            }
            return r;
        }
        i = i + 1;
    }
    Err(ZappiError::MissingDayCollection)
}

/// Normalizing samples never reports a missing day collection.
proof fn lemma_normalize_all_no_missing_collection(samples: Seq<RawSample>)
    ensures
        normalize_all(samples) != Err::<Seq<PerMinuteZappiData>, ZappiError>(
            ZappiError::MissingDayCollection,
        ),
    decreases samples.len(),
{
    if samples.len() > 0 {
        lemma_normalize_all_no_missing_collection(samples.drop_last());
    }
}

/// One point of the batch written to the time-series store.
#[derive(Clone, Debug)]
pub struct WritePoint {
    pub measurement: String,
    pub reading: PerMinuteZappiData,
}

/// One point per reading, in order, each under the measurement `zappi_data`.
pub fn to_write_batch(data: &Vec<PerMinuteZappiData>) -> (r: Vec<WritePoint>)
    ensures
        r@.len() == data@.len(),
        forall|i: int|
            0 <= i < r@.len() ==> r@[i].measurement@ == MEASUREMENT@ && r@[i].reading
                == data@[i],
{
    let mut batch: Vec<WritePoint> = Vec::new();
    let mut i: usize = 0;
    while i < data.len()
        invariant
            i <= data.len(),
            batch@.len() == i,
            forall|j: int| 0 <= j < i ==> #[trigger] batch@[j].measurement@ == MEASUREMENT@,
            forall|j: int| 0 <= j < i ==> #[trigger] batch@[j].reading == data@[j],
        decreases data.len() - i,
    {
        let point = WritePoint { measurement: MEASUREMENT.to_owned(), reading: data[i] };
        let ghost before = batch@;
        batch.push(point);
        assert forall|j: int| 0 <= j < i implies #[trigger] batch@[j].measurement@
            == MEASUREMENT@ by {
            assert(batch@[j] == before[j]);
        }
        i = i + 1;
    }
    batch
}

/// A sample with each missing optional field (hour, minute and the four
/// energies) written out as zero.
pub open spec fn with_defaults(s: RawSample) -> RawSample {
    let zero_if_missing = |f: RawField|
        if is_missing(f) {
            RawField::Number(0)
        } else {
            f
        };
    RawSample {
        yr: s.yr,
        mon: s.mon,
        dom: s.dom,
        hr: zero_if_missing(s.hr),
        min: zero_if_missing(s.min),
        imp: zero_if_missing(s.imp),
        exp: zero_if_missing(s.exp),
        gep: zero_if_missing(s.gep),
        h1b: zero_if_missing(s.h1b),
    }
}

/// Normalization depends on the sample alone: equal samples give equal
/// readings, or equal errors.
pub proof fn lemma_normalize_is_pure(a: RawSample, b: RawSample)
    requires
        a == b,
    ensures
        normalize(a) == normalize(b),
{
}

/// A missing hour, minute or energy reads as zero and causes no failure of
/// its own; a missing year, month or day of month is a failure.
pub proof fn lemma_missing_fields(s: RawSample)
    ensures
        normalize(s) == normalize(with_defaults(s)),
        is_missing(s.yr) || is_missing(s.mon) || is_missing(s.dom) ==> normalize(s) == Err::<
            PerMinuteZappiData,
            ZappiError,
        >(ZappiError::MissingField),
{
}

/// Normalizing a day keeps the samples' order: where every sample
/// normalizes, the i-th reading is that of the i-th sample; where one does
/// not, the day fails.
pub proof fn lemma_day_order_preserved(samples: Seq<RawSample>)
    ensures
        normalize_all(samples) is Ok <==> (forall|i: int|
            0 <= i < samples.len() ==> #[trigger] normalize(samples[i]) is Ok),
        normalize_all(samples) is Ok ==> normalize_all(samples)->Ok_0.len() == samples.len() && (
        forall|i: int|
            0 <= i < samples.len() ==> normalize(#[trigger] samples[i]) == Ok::<
                PerMinuteZappiData,
                ZappiError,
            >(normalize_all(samples)->Ok_0[i])),
    decreases samples.len(),
{
    if samples.len() > 0 {
        let init = samples.drop_last();
        lemma_day_order_preserved(init);
        assert forall|i: int| 0 <= i < init.len() implies init[i] == samples[i] by {}
        if normalize_all(samples) is Ok {
            let prefix = normalize_all(init)->Ok_0;
            assert forall|i: int| 0 <= i < samples.len() implies normalize(#[trigger] samples[i])
                == Ok::<PerMinuteZappiData, ZappiError>(normalize_all(samples)->Ok_0[i]) by {
                if i < init.len() {
                    assert(init[i] == samples[i]);
                }
            }
        } else if normalize_all(init) is Ok {
            assert(!(normalize(samples[samples.len() - 1]) is Ok));
        } else {
            let i = choose|i: int| 0 <= i < init.len() && !(normalize(init[i]) is Ok);
            assert(init[i] == samples[i]);
        }
    }
}

} // verus!
