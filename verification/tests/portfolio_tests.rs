use energy_mix::portfolio::Sources;
use energy_mix::series::{Request, Response, Series};
use energy_mix::source::Source;

fn source_of(name: &str, samples: &[(&str, i64)]) -> Source {
    let series = Series {
        series_id: name.to_string(),
        name: name.to_string(),
        units: "megawatthours".to_string(),
        f: "H".to_string(),
        description: String::new(),
        data: samples.iter().map(|(s, v)| (s.to_string(), *v)).collect(),
    };
    let response = Response::new(
        Request { command: "series".to_string(), series_id: name.to_string() },
        vec![series],
    );
    Source::new(name.to_string(), name.to_string(), response, None).unwrap()
}

#[test]
fn two_sources_equal_share() {
    let hydro = source_of("Hydro", &[("20240607T14Z", 100_000)]);
    let solar = source_of("Solar", &[("20240607T14Z", 100_000)]);
    let p = Sources::new(vec![hydro, solar]);
    assert_eq!(p.total(), 200_000);
    for s in &p.sources {
        let share = s.percent_of_total().unwrap();
        assert_eq!(share.num, 100 * 100_000);
        assert_eq!(share.den, 200_000);
        assert_eq!(share.num as f64 / share.den as f64, 50.000);
    }
    // Tied shares keep the input order.
    assert_eq!(p.sources[0].name().as_str(), "Hydro");
    assert_eq!(p.sources[1].name().as_str(), "Solar");
}

#[test]
fn negative_reading_clamped_in_share_only() {
    let wind = source_of("Wind", &[("20240607T14Z", -3_000)]);
    let solar = source_of("Solar", &[("20240607T14Z", 97_000)]);
    let p = Sources::new(vec![wind, solar]);
    // The denominator is the raw sum, negatives included.
    assert_eq!(p.total(), 94_000);
    assert_eq!(p.sources[0].name().as_str(), "Solar");
    assert_eq!(p.sources[1].name().as_str(), "Wind");
    let solar_share = p.sources[0].percent_of_total().unwrap();
    assert_eq!(solar_share.num, 100 * 97_000);
    assert_eq!(solar_share.den, 94_000);
    let pct = solar_share.num as f64 / solar_share.den as f64;
    assert!((pct - 103.19).abs() < 0.01);
    let wind_share = p.sources[1].percent_of_total().unwrap();
    assert_eq!(wind_share.num, 0);
    assert_eq!(wind_share.den, 94_000);
    // The displayed current actual stays the raw reading.
    assert_eq!(p.sources[1].get_last_val(), -3_000);
}

#[test]
fn ordering_is_descending_and_stable() {
    let a = source_of("A", &[("20240607T14Z", 10_000)]);
    let b = source_of("B", &[("20240607T14Z", 40_000)]);
    let c = source_of("C", &[("20240607T14Z", 40_000)]);
    let d = source_of("D", &[("20240607T14Z", 10_000)]);
    let p = Sources::new(vec![a, b, c, d]);
    let names: Vec<&str> = p.sources.iter().map(|s| s.name().as_str()).collect();
    assert_eq!(names, ["B", "C", "A", "D"]);
}

#[test]
fn shares_sum_to_one_hundred_on_positive_readings() {
    let a = source_of("A", &[("20240607T14Z", 10_000)]);
    let b = source_of("B", &[("20240607T14Z", 20_000)]);
    let c = source_of("C", &[("20240607T14Z", 30_000)]);
    let p = Sources::new(vec![a, b, c]);
    let total = p.total();
    assert_eq!(total, 60_000);
    let mut num_sum: i128 = 0;
    for s in &p.sources {
        let share = s.percent_of_total().unwrap();
        assert_eq!(share.den, total);
        num_sum += share.num;
    }
    // Sum of the ratios is num_sum / total == 100, exactly.
    assert_eq!(num_sum, 100 * total);
}

#[test]
fn portfolio_windowed_total_and_average() {
    let a = source_of("A", &[("20240607T14Z", 5_000), ("20240607T13Z", -1_000)]);
    let b = source_of("B", &[("20240607T14Z", 3_000), ("20240607T13Z", 2_000)]);
    let p = Sources::new(vec![a, b]);
    // Clamped windowed sums: a gives 5000, b gives 5000.
    assert_eq!(p.total_over_n_hours(2), 10_000);
    let avg = p.average_over_n_hours(744);
    assert_eq!(avg.num, 10_000);
    assert_eq!(avg.den, 744);
}

#[test]
fn single_source_takes_the_whole_share() {
    let a = source_of("A", &[("20240607T14Z", 7_000)]);
    let p = Sources::new(vec![a]);
    let share = p.sources[0].percent_of_total().unwrap();
    assert_eq!(share.num, 700_000);
    assert_eq!(share.den, 7_000);
    assert_eq!(share.num as f64 / share.den as f64, 100.0);
}
