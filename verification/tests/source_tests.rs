use energy_mix::rat::Rat;
use energy_mix::series::{FetchError, Request, Response, Series};
use energy_mix::source::{zero_or_more, Source, CARBON_DEN, MWH_TO_BTU_HUNDREDTHS};

fn series_of(id: &str, samples: &[(&str, i64)]) -> Series {
    Series {
        series_id: id.to_string(),
        name: id.to_string(),
        units: "megawatthours".to_string(),
        f: "H".to_string(),
        description: String::new(),
        data: samples.iter().map(|(s, v)| (s.to_string(), *v)).collect(),
    }
}

fn response_of(id: &str, samples: &[(&str, i64)]) -> Response {
    Response::new(
        Request { command: "series".to_string(), series_id: id.to_string() },
        vec![series_of(id, samples)],
    )
}

#[test]
fn zero_or_more_clamps_negatives_only() {
    assert_eq!(zero_or_more(&-3000), 0);
    assert_eq!(zero_or_more(&0), 0);
    assert_eq!(zero_or_more(&5000), 5000);
}

#[test]
fn carbon_computation() {
    // Gas newest reading 1000 MWh, newest coefficient 53.06 kg/MMBTU,
    // both in milli-units.
    let gen = response_of("GAS", &[("20240607T14Z", 1_000_000)]);
    let coeff = response_of("CO2", &[("2022", 53_060)]);
    let s = Source::new("Natural Gas".to_string(), "GAS".to_string(), gen, Some(coeff))
        .unwrap();
    let carbon = s.carbon_equiv();
    assert_eq!(carbon.num, 1_000_000i128 * MWH_TO_BTU_HUNDREDTHS * 53_060);
    assert_eq!(carbon.den, CARBON_DEN);
    // 1000 * 3.41214163 * 53.06 / 1000 metric tons.
    let tons = carbon.num as f64 / carbon.den as f64;
    assert!((tons - 181.0482).abs() < 0.001);
    assert!((tons - 181.06).abs() < 0.05);
}

#[test]
fn no_carbon_series_means_zero_carbon() {
    let gen = response_of("HYDRO", &[("20240607T14Z", 100_000)]);
    let s = Source::new("Hydro".to_string(), "HYDRO".to_string(), gen, None).unwrap();
    assert_eq!(s.carbon_equiv(), Rat { num: 0, den: 1 });
}

#[test]
fn total_over_clamps_each_sample() {
    let gen = response_of("X", &[("20240607T14Z", 5_000), ("20240607T13Z", -3_000),
        ("20240607T12Z", 2_000)]);
    let s = Source::new("X".to_string(), "X".to_string(), gen, None).unwrap();
    assert_eq!(s.total_over_n_hours(3), 7_000);
    assert_eq!(s.total_over_n_hours(2), 5_000);
    assert_eq!(s.total_over_n_hours(0), 0);
    // A window longer than the history counts the missing tail as zero.
    assert_eq!(s.total_over_n_hours(10), 7_000);
}

#[test]
fn total_over_is_nonnegative_on_all_missing() {
    let gen = response_of("X", &[("20240607T14Z", -1_000), ("20240607T13Z", -2_000)]);
    let s = Source::new("X".to_string(), "X".to_string(), gen, None).unwrap();
    assert_eq!(s.total_over_n_hours(2), 0);
    assert_eq!(s.get_last_val(), -1_000);
}

#[test]
fn average_is_total_over_window_exactly() {
    let gen = response_of("X", &[("20240607T14Z", 5_000), ("20240607T13Z", 3_000)]);
    let s = Source::new("X".to_string(), "X".to_string(), gen, None).unwrap();
    let avg = s.average_over_past_n_hours(4);
    assert_eq!(avg.num, s.total_over_n_hours(4));
    assert_eq!(avg.den, 4);
}

#[test]
fn monthly_window_with_short_history() {
    // Ten samples of value 2 each; average over 744 hours is 20 / 744.
    let samples: Vec<(String, i64)> = (0..10)
        .map(|i| (format!("202406{:02}T00Z", 10 - i), 2_000i64))
        .collect();
    let gen = Response::new(
        Request { command: "series".to_string(), series_id: "X".to_string() },
        vec![Series {
            series_id: "X".to_string(),
            name: "X".to_string(),
            units: "megawatthours".to_string(),
            f: "H".to_string(),
            description: String::new(),
            data: samples,
        }],
    );
    let s = Source::new("X".to_string(), "X".to_string(), gen, None).unwrap();
    let avg = s.average_over_past_n_hours(744);
    assert_eq!(avg.num, 20_000);
    assert_eq!(avg.den, 744);
    let units = avg.num as f64 / avg.den as f64 / 1000.0;
    assert!((units - 0.0269).abs() < 0.0002);
}

#[test]
fn empty_series_array_fails_construction() {
    let gen = Response::new(
        Request { command: "series".to_string(), series_id: "X".to_string() },
        vec![],
    );
    let r = Source::new("X".to_string(), "X".to_string(), gen, None);
    assert_eq!(r.err(), Some(FetchError::Empty));
}

#[test]
fn series_without_samples_fails_construction() {
    let gen = response_of("X", &[]);
    let r = Source::new("X".to_string(), "X".to_string(), gen, None);
    assert_eq!(r.err(), Some(FetchError::Empty));
}

#[test]
fn empty_carbon_series_fails_construction() {
    let gen = response_of("X", &[("20240607T14Z", 1_000)]);
    let coeff = response_of("CO2", &[]);
    let r = Source::new("X".to_string(), "X".to_string(), gen, Some(coeff));
    assert_eq!(r.err(), Some(FetchError::Empty));
}

#[test]
fn missing_latest_reading_gives_zero_carbon() {
    // A negative (missing) newest generation reading counts as zero in the
    // carbon product: the stored carbon equivalent is never negative.
    let gen = response_of("GAS", &[("20240607T14Z", -5_000)]);
    let coeff = response_of("CO2", &[("2022", 53_060)]);
    let s = Source::new("Natural Gas".to_string(), "GAS".to_string(), gen, Some(coeff))
        .unwrap();
    let carbon = s.carbon_equiv();
    assert_eq!(carbon.num, 0);
    assert_eq!(carbon.den, CARBON_DEN);
    // The displayed current actual keeps the raw reading.
    assert_eq!(s.get_last_val(), -5_000);
}

#[test]
fn negative_coefficient_gives_zero_carbon() {
    let gen = response_of("GAS", &[("20240607T14Z", 1_000_000)]);
    let coeff = response_of("CO2", &[("2022", -1_000)]);
    let s = Source::new("Natural Gas".to_string(), "GAS".to_string(), gen, Some(coeff))
        .unwrap();
    assert_eq!(s.carbon_equiv().num, 0);
}

#[test]
fn misordered_series_fails_construction() {
    // Samples oldest-first: the first stamp does not stand after the last.
    let gen = response_of("X", &[("20240607T13Z", 1_000), ("20240607T14Z", 2_000)]);
    let r = Source::new("X".to_string(), "X".to_string(), gen, None);
    assert_eq!(r.err(), Some(FetchError::Parse));
}

#[test]
fn repeated_stamp_fails_construction() {
    let gen = response_of("X", &[("20240607T14Z", 1_000), ("20240607T14Z", 2_000)]);
    let r = Source::new("X".to_string(), "X".to_string(), gen, None);
    assert_eq!(r.err(), Some(FetchError::Parse));
}

#[test]
fn misordered_carbon_series_fails_construction() {
    let gen = response_of("X", &[("20240607T14Z", 1_000)]);
    let coeff = response_of(
        "CO2",
        &[("20210101T00Z", 50_000), ("20220101T00Z", 53_060)],
    );
    let r = Source::new("X".to_string(), "X".to_string(), gen, Some(coeff));
    assert_eq!(r.err(), Some(FetchError::Parse));
}

#[test]
fn annual_carbon_stamps_are_advisory() {
    // The coefficient series carries year-only stamps; they fail the hourly
    // pattern, so the ordering check cannot be held against them.
    let gen = response_of("X", &[("20240607T14Z", 1_000)]);
    let coeff = response_of("CO2", &[("2021", 50_000), ("2022", 53_060)]);
    let s = Source::new("X".to_string(), "X".to_string(), gen, Some(coeff)).unwrap();
    assert_eq!(s.carbon_equiv().num, 1_000i128 * MWH_TO_BTU_HUNDREDTHS * 50_000);
}

#[test]
fn unparsable_stamp_skips_ordering_check() {
    // A stamp that fails to parse is advisory: the ordering cannot be held
    // against it and construction goes through.
    let gen = response_of("X", &[("badstamp", 4_000), ("20240607T13Z", 1_000)]);
    let s = Source::new("X".to_string(), "X".to_string(), gen, None).unwrap();
    assert_eq!(s.get_last_val(), 4_000);
}

#[test]
fn last_data_carries_parsed_stamp_and_raw_value() {
    let gen = response_of("X", &[("20240607T14Z", -5_000), ("20240607T13Z", 1_000)]);
    let s = Source::new("X".to_string(), "X".to_string(), gen, None).unwrap();
    let (stamp, v) = s.get_last_data();
    assert_eq!(v, -5_000);
    let stamp = stamp.unwrap();
    assert_eq!(stamp.year, 2024);
    assert_eq!(stamp.month, 6);
    assert_eq!(stamp.day, 7);
    assert_eq!(stamp.hour, 14);
    assert_eq!(s.name().as_str(), "X");
}

#[test]
fn dt_data_keeps_values_under_unparsable_stamps() {
    let gen = response_of("X", &[("badstamp", 4_000), ("20240607T13Z", 1_000)]);
    let rows = gen.get_dt_data();
    assert_eq!(rows.len(), 2);
    assert_eq!(rows[0].0, None);
    assert_eq!(rows[0].1, 4_000);
    assert!(rows[1].0.is_some());
    assert_eq!(rows[1].1, 1_000);
}
