use ci_tools::float_order::float_bits_lt;
use ci_tools::latency::{find_min_latency, pick_min_latency, LatencyPick, LatencyStats, ParsedLatency};

fn reading(s: &str) -> u64 {
    s.parse::<f64>().unwrap_or(0.0).to_bits()
}

fn stats(avg: &str, stdev: &str, max: &str) -> LatencyStats {
    LatencyStats {
        avg: avg.to_string(),
        stdev: stdev.to_string(),
        max: max.to_string(),
        deviation: "50.00%".to_string(),
    }
}

fn parsed(l: &LatencyStats) -> ParsedLatency {
    ParsedLatency { avg: reading(&l.avg), stdev: reading(&l.stdev), max: reading(&l.max) }
}

#[test]
fn float_order_agrees_with_f64() {
    let values = [
        0.0f64, -0.0, 1.0, -1.0, 0.5, 2.5e10, -3.75e-5, f64::INFINITY, f64::NEG_INFINITY,
        f64::NAN, -f64::NAN, f64::MIN_POSITIVE, f64::MAX, f64::MIN, 5e-324, -5e-324,
    ];
    for a in values.iter() {
        for b in values.iter() {
            assert_eq!(float_bits_lt(a.to_bits(), b.to_bits()), a < b, "{} < {}", a, b);
        }
    }
}

#[test]
fn min_latency_of_plain_numbers() {
    let l = stats("1.5", "0.25", "12");
    assert_eq!(find_min_latency(&l, &parsed(&l)), "0.25");
    let l = stats("0.1", "0.25", "12");
    assert_eq!(find_min_latency(&l, &parsed(&l)), "0.1");
    let l = stats("3", "2", "1");
    assert_eq!(find_min_latency(&l, &parsed(&l)), "1");
}

#[test]
fn min_latency_tie_falls_to_max() {
    let l = stats("1", "1", "2");
    assert_eq!(find_min_latency(&l, &parsed(&l)), "1");
    let l = stats("1", "1", "5");
    assert_eq!(find_min_latency(&l, &parsed(&l)), "1");
}

#[test]
fn min_latency_all_equal_gives_max() {
    let l = stats("1", "1.0", "1.00");
    assert_eq!(find_min_latency(&l, &parsed(&l)), "1.00");
}

#[test]
fn min_latency_other_ties_are_least() {
    let l = stats("1", "3", "1");
    assert_eq!(find_min_latency(&l, &parsed(&l)), "1");
    let l = stats("4", "2", "2.0");
    assert_eq!(find_min_latency(&l, &parsed(&l)), "2.0");
}

#[test]
fn min_latency_with_units_falls_to_max() {
    let l = stats("635.91us", "0.89ms", "12.92ms");
    assert_eq!(find_min_latency(&l, &parsed(&l)), "12.92ms");
}

#[test]
fn min_latency_with_nan() {
    // NaN is below nothing and nothing is below it, so stdev is not below
    // both others either.
    let l = stats("NaN", "2", "3");
    assert_eq!(find_min_latency(&l, &parsed(&l)), "3");
}

#[test]
fn pick_min_latency_columns() {
    let p = ParsedLatency { avg: reading("1"), stdev: reading("2"), max: reading("3") };
    assert_eq!(pick_min_latency(&p), LatencyPick::Avg);
    let p = ParsedLatency { avg: reading("2"), stdev: reading("-1"), max: reading("3") };
    assert_eq!(pick_min_latency(&p), LatencyPick::Stdev);
    let p = ParsedLatency { avg: reading("0"), stdev: reading("-0"), max: reading("3") };
    assert_eq!(pick_min_latency(&p), LatencyPick::Avg);
    let p = ParsedLatency { avg: reading("NaN"), stdev: reading("NaN"), max: reading("3") };
    assert_eq!(pick_min_latency(&p), LatencyPick::Max);
}
