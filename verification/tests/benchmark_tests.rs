use ci_tools::benchmark::{
    process_lines, rate_text, BenchmarkData, BenchmarkPatterns, LineError, LineKind, RateText,
};
use ci_tools::pattern::Pattern;

const REPORT: &str = "Running 30s test @ http://127.0.0.1:8080/
  12 threads and 400 connections
  Thread Stats   Avg      Stdev     Max   +/- Stdev
    Latency   635.91us    0.89ms  12.92ms   93.69%
    Req/Sec    56.20k     8.07k   62.00k    86.54%
  22464657 requests in 30.00s, 17.76GB read
Requests/sec: 748868.53
Transfer/sec:    606.33MB";

fn lines(text: &str) -> Vec<String> {
    text.lines().map(|l| l.to_string()).collect()
}

#[test]
fn full_report_is_read() {
    let patterns = BenchmarkPatterns::new().unwrap();
    let d = process_lines(&patterns, &lines(REPORT)).unwrap();
    assert_eq!(d.test_name, "ci-benchmark");
    assert_eq!(d.threads, 12);
    assert_eq!(d.connections, 400);
    assert_eq!(d.stats.latency.avg, "635.91us");
    assert_eq!(d.stats.latency.stdev, "0.89ms");
    assert_eq!(d.stats.latency.max, "12.92ms");
    assert_eq!(d.stats.latency.deviation, "93.69%");
    assert_eq!(d.stats.requests_per_second.avg, RateText { number: "56.20".to_string(), thousands: true });
    assert_eq!(d.stats.requests_per_second.stdev, "8.07k");
    assert_eq!(d.stats.requests_per_second.max, RateText { number: "62.00".to_string(), thousands: true });
    assert_eq!(d.stats.requests_per_second.deviation, "86.54%");
    assert_eq!(d.total_requests, 22464657);
    assert_eq!(d.data_transferred, "17.76GB");
    assert_eq!(d.requests_per_second_overall, "748868.53");
    assert_eq!(d.min_latency, "");
}

#[test]
fn empty_report_gives_initial_record() {
    let patterns = BenchmarkPatterns::new().unwrap();
    assert_eq!(process_lines(&patterns, &vec![]).unwrap(), BenchmarkData::new());
}

#[test]
fn unmatched_line_changes_nothing() {
    let patterns = BenchmarkPatterns::new().unwrap();
    let mut d = BenchmarkData::new();
    assert_eq!(d.process_line(&patterns, "Transfer/sec:    606.33MB"), Ok(()));
    assert_eq!(d, BenchmarkData::new());
}

#[test]
fn later_line_of_a_kind_overwrites() {
    let patterns = BenchmarkPatterns::new().unwrap();
    let d = process_lines(&patterns, &lines("2 threads and 10 connections\n4 threads and 20 connections")).unwrap();
    assert_eq!((d.threads, d.connections), (4, 20));
}

#[test]
fn counts_that_overflow_read_as_zero() {
    let patterns = BenchmarkPatterns::new().unwrap();
    let d = process_lines(&patterns, &lines("99999999999 requests in 1.00m, 1GB read")).unwrap();
    assert_eq!(d.total_requests, 0);
    assert_eq!(d.data_transferred, "1GB");
}

#[test]
fn first_matching_kind_wins() {
    let patterns = BenchmarkPatterns::new().unwrap();
    let mut d = BenchmarkData::new();
    d.process_line(&patterns, "1 threads and 2 connections Latency a b c d").unwrap();
    assert_eq!((d.threads, d.connections), (1, 2));
    assert_eq!(d.stats.latency.avg, "");
}

#[test]
fn missing_group_is_refused() {
    let mut d = BenchmarkData::new();
    let groups = vec![Some("Latency 1 2".to_string()), Some("1".to_string()), None];
    assert_eq!(d.record_groups(LineKind::Latency, &groups), Err(LineError::MissingGroup(LineKind::Latency)));
    assert_eq!(d, BenchmarkData::new());
}

#[test]
fn rate_text_reads_suffix() {
    assert_eq!(rate_text("8.07k"), RateText { number: "8.07".to_string(), thousands: true });
    assert_eq!(rate_text("950.00"), RateText { number: "950.00".to_string(), thousands: false });
}

#[test]
fn captures_give_group_texts() {
    let p = Pattern::new(r"(\d+) requests in (\S+), (\S+) read").unwrap();
    let g = p.captures("  5 requests in 2s, 3MB read").unwrap();
    assert_eq!(
        g,
        vec![
            Some("5 requests in 2s, 3MB read".to_string()),
            Some("5".to_string()),
            Some("2s".to_string()),
            Some("3MB".to_string())
        ]
    );
    assert_eq!(p.captures("nothing here"), None);
    assert!(p.is_match("7 requests in 1s, 1B read"));
    assert!(!p.is_match("requests"));
}

#[test]
fn invalid_pattern_is_refused() {
    let e = Pattern::new("foo(bar").unwrap_err();
    assert_eq!(e.pattern, "foo(bar");
}

#[test]
fn lines_of_different_kinds_commute() {
    let patterns = BenchmarkPatterns::new().unwrap();
    let a = "Latency 1ms 2ms 3ms 40%";
    let b = "Requests/sec: 12.5";
    let ab = process_lines(&patterns, &lines(&format!("{}\n{}", a, b))).unwrap();
    let ba = process_lines(&patterns, &lines(&format!("{}\n{}", b, a))).unwrap();
    assert_eq!(ab, ba);
    assert_eq!(ab.stats.latency.max, "3ms");
    assert_eq!(ab.requests_per_second_overall, "12.5");
}
