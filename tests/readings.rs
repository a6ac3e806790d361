use zappi_stats::util::{
    electricity_rate, joules_to_watts, TimeOfDay, OFF_PEAK_RATE, PEAK_RATE,
};
use zappi_stats::zappi::{
    day_url, normalize_day, readings_from_response, resolve_host, response_key, to_write_batch,
    PerMinuteZappiData, RawField, RawSample, ResponseEntry, Timestamp, ZappiError, MEASUREMENT,
};

fn clock(hour: u32, minute: u32, second: u32) -> TimeOfDay {
    TimeOfDay::new(hour, minute, second).unwrap()
}

fn sample(yr: i64, mon: i64, dom: i64, hr: i64, min: i64, imp: i64) -> RawSample {
    RawSample {
        yr: RawField::Number(yr),
        mon: RawField::Number(mon),
        dom: RawField::Number(dom),
        hr: RawField::Number(hr),
        min: RawField::Number(min),
        imp: RawField::Number(imp),
        exp: RawField::Number(0),
        gep: RawField::Number(0),
        h1b: RawField::Number(0),
    }
}

#[test]
fn rate_at_window_boundaries() {
    assert_eq!(OFF_PEAK_RATE, 7500);
    assert_eq!(PEAK_RATE, 29560);
    assert_eq!(electricity_rate(clock(23, 30, 0)), 7500);
    assert_eq!(electricity_rate(clock(23, 29, 59)), 29560);
    assert_eq!(electricity_rate(clock(5, 29, 59)), 7500);
    assert_eq!(electricity_rate(clock(5, 30, 0)), 29560);
    assert_eq!(electricity_rate(clock(0, 0, 0)), 7500);
    assert_eq!(electricity_rate(clock(23, 59, 59)), 7500);
    assert_eq!(electricity_rate(clock(12, 0, 0)), 29560);
}

#[test]
fn time_of_day_rejects_out_of_range() {
    assert_eq!(TimeOfDay::new(24, 0, 0), None);
    assert_eq!(TimeOfDay::new(0, 60, 0), None);
    assert_eq!(TimeOfDay::new(0, 0, 60), None);
    assert_eq!(
        TimeOfDay::new(23, 59, 59),
        Some(TimeOfDay { hour: 23, minute: 59, second: 59 })
    );
}

#[test]
fn power_examples() {
    assert_eq!(joules_to_watts(0, 60), 0);
    assert_eq!(joules_to_watts(30, 60), 0);
    assert_eq!(joules_to_watts(-30, 60), 0);
    assert_eq!(joules_to_watts(120, 60), 2);
    assert_eq!(joules_to_watts(-120, 60), -2);
    assert_eq!(joules_to_watts(179, 60), 2);
    assert_eq!(joules_to_watts(-179, 60), -2);
    assert_eq!(joules_to_watts(60, 60), 1);
}

#[test]
fn power_extremes() {
    assert_eq!(joules_to_watts(i64::MIN, 1), i64::MIN);
    assert_eq!(joules_to_watts(i64::MAX, 1), i64::MAX);
    assert_eq!(joules_to_watts(i64::MIN, u64::MAX), 0);
    assert_eq!(joules_to_watts(i64::MIN, 1u64 << 63), -1);
    assert_eq!(joules_to_watts(7, 1), 7);
}

#[test]
fn timestamp_validates_calendar() {
    assert!(Timestamp::from_fields(2023, 2, 29, 0, 0).is_none());
    assert!(Timestamp::from_fields(2024, 2, 29, 0, 0).is_some());
    assert!(Timestamp::from_fields(1900, 2, 29, 0, 0).is_none());
    assert!(Timestamp::from_fields(2000, 2, 29, 0, 0).is_some());
    assert!(Timestamp::from_fields(2024, 4, 31, 0, 0).is_none());
    assert!(Timestamp::from_fields(2024, 13, 1, 0, 0).is_none());
    assert!(Timestamp::from_fields(2024, 1, 0, 0, 0).is_none());
    assert!(Timestamp::from_fields(2024, 1, 1, 24, 0).is_none());
    assert!(Timestamp::from_fields(2024, 1, 1, 0, 60).is_none());
    assert!(Timestamp::from_fields(262143, 1, 1, 0, 0).is_none());
    assert_eq!(
        Timestamp::from_fields(2024, 12, 31, 23, 59),
        Some(Timestamp { year: 2024, month: 12, day: 31, hour: 23, minute: 59 })
    );
}

#[test]
fn scenario_late_evening_sample() {
    let r = PerMinuteZappiData::new(sample(2024, 3, 15, 23, 45, 1800)).unwrap();
    assert_eq!(r.time, Timestamp { year: 2024, month: 3, day: 15, hour: 23, minute: 45 });
    assert_eq!(r.imported_watts, 30);
    assert_eq!(r.exported_watts, 0);
    assert_eq!(r.generated_watts, 0);
    assert_eq!(r.zappi_watts, 0);
    assert_eq!(r.electricity_rate, 7500);
}

#[test]
fn normalize_converts_every_energy() {
    let mut s = sample(2024, 6, 1, 12, 0, -600);
    s.exp = RawField::Number(1200);
    s.gep = RawField::Number(59);
    s.h1b = RawField::Number(7200);
    let r = PerMinuteZappiData::new(s).unwrap();
    assert_eq!(r.imported_watts, -10);
    assert_eq!(r.exported_watts, 20);
    assert_eq!(r.generated_watts, 0);
    assert_eq!(r.zappi_watts, 120);
    assert_eq!(r.electricity_rate, 29560);
}

#[test]
fn normalize_is_repeatable() {
    let s = sample(2024, 3, 15, 4, 10, 3000);
    assert_eq!(PerMinuteZappiData::new(s), PerMinuteZappiData::new(s));
}

#[test]
fn missing_optional_fields_default_to_zero() {
    let s = RawSample {
        yr: RawField::Number(2024),
        mon: RawField::Number(3),
        dom: RawField::Number(15),
        hr: RawField::Missing,
        min: RawField::Missing,
        imp: RawField::Missing,
        exp: RawField::Malformed,
        gep: RawField::Missing,
        h1b: RawField::Missing,
    };
    let r = PerMinuteZappiData::new(s).unwrap();
    assert_eq!(r.time, Timestamp { year: 2024, month: 3, day: 15, hour: 0, minute: 0 });
    assert_eq!(r.imported_watts, 0);
    assert_eq!(r.exported_watts, 0);
    assert_eq!(r.generated_watts, 0);
    assert_eq!(r.zappi_watts, 0);
    assert_eq!(r.electricity_rate, 7500);
}

#[test]
fn missing_required_fields_fail() {
    let mut s = sample(2024, 3, 15, 1, 2, 0);
    s.yr = RawField::Missing;
    assert_eq!(PerMinuteZappiData::new(s), Err(ZappiError::MissingField));
    let mut s = sample(2024, 3, 15, 1, 2, 0);
    s.mon = RawField::Missing;
    assert_eq!(PerMinuteZappiData::new(s), Err(ZappiError::MissingField));
    let mut s = sample(2024, 3, 15, 1, 2, 0);
    s.dom = RawField::Missing;
    assert_eq!(PerMinuteZappiData::new(s), Err(ZappiError::MissingField));
}

#[test]
fn invalid_calendar_fields_fail() {
    assert_eq!(
        PerMinuteZappiData::new(sample(2023, 2, 29, 0, 0, 0)),
        Err(ZappiError::InvalidTimestamp)
    );
    assert_eq!(
        PerMinuteZappiData::new(sample(2023, 1, 1, 25, 0, 0)),
        Err(ZappiError::InvalidTimestamp)
    );
    let mut s = sample(2024, 3, 15, 1, 2, 0);
    s.hr = RawField::Malformed;
    assert_eq!(PerMinuteZappiData::new(s), Err(ZappiError::InvalidTimestamp));
}

#[test]
fn day_order_is_preserved() {
    let samples = vec![
        sample(2024, 3, 15, 0, 0, 60),
        sample(2024, 3, 15, 0, 1, 120),
        sample(2024, 3, 15, 0, 2, 180),
    ];
    let day = normalize_day(&samples).unwrap();
    assert_eq!(day.len(), 3);
    for (i, s) in samples.iter().enumerate() {
        assert_eq!(Ok(day[i]), PerMinuteZappiData::new(*s));
    }
    assert_eq!(day[0].imported_watts, 1);
    assert_eq!(day[1].imported_watts, 2);
    assert_eq!(day[2].imported_watts, 3);
}

#[test]
fn day_fails_on_first_bad_sample() {
    let mut bad = sample(2024, 3, 15, 0, 1, 0);
    bad.dom = RawField::Missing;
    let samples = vec![sample(2024, 3, 15, 0, 0, 60), bad, sample(2023, 2, 30, 0, 0, 0)];
    assert_eq!(normalize_day(&samples), Err(ZappiError::MissingField));
    assert_eq!(normalize_day(&Vec::new()), Ok(Vec::new()));
}

#[test]
fn urls_and_keys() {
    assert_eq!(
        day_url("s18.myenergi.net", "12345678", "2024-3-5"),
        "https://s18.myenergi.net/cgi-jday-Z12345678-2024-3-5"
    );
    assert_eq!(response_key("12345678"), "U12345678");
}

#[test]
fn host_comes_from_header() {
    assert_eq!(resolve_host(Some(String::from("s18.myenergi.net"))), Ok(String::from("s18.myenergi.net")));
    assert_eq!(resolve_host(None), Err(ZappiError::MissingHeader));
}

#[test]
fn response_without_device_key_aborts() {
    let entries = vec![ResponseEntry {
        key: String::from("U999"),
        samples: vec![sample(2024, 3, 15, 23, 45, 1800)],
    }];
    assert_eq!(readings_from_response(&entries, "123"), Err(ZappiError::MissingDayCollection));
    assert_eq!(readings_from_response(&Vec::new(), "123"), Err(ZappiError::MissingDayCollection));
}

#[test]
fn response_with_device_key_is_normalized() {
    let entries = vec![
        ResponseEntry { key: String::from("U999"), samples: vec![] },
        ResponseEntry {
            key: String::from("U123"),
            samples: vec![sample(2024, 3, 15, 23, 45, 1800), sample(2024, 3, 15, 23, 46, 60)],
        },
    ];
    let day = readings_from_response(&entries, "123").unwrap();
    assert_eq!(day.len(), 2);
    assert_eq!(day[0].imported_watts, 30);
    assert_eq!(day[1].imported_watts, 1);
    assert_eq!(day[1].time.minute, 46);
}

#[test]
fn write_batch_has_one_point_per_reading() {
    let day = normalize_day(&vec![sample(2024, 3, 15, 6, 0, 600), sample(2024, 3, 15, 6, 1, 0)]).unwrap();
    let batch = to_write_batch(&day);
    assert_eq!(MEASUREMENT, "zappi_data");
    assert_eq!(batch.len(), 2);
    for (i, p) in batch.iter().enumerate() {
        assert_eq!(p.measurement, "zappi_data");
        assert_eq!(p.reading, day[i]);
    }
    assert!(to_write_batch(&Vec::new()).is_empty());
}
