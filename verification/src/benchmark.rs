//! Reading the text report of a wrk benchmark run, line by line, into a
//! `BenchmarkData` record.

use vstd::prelude::*;
use crate::latency::{LatencyStats, LatencyView};
use crate::pattern::{Pattern, PatternError, regex_captures, regex_compiles};
use crate::text::{
    ends_with_k, lemma_strip_trailing_k_prefix, parse_u32_or_zero, spec_parse_u32, spec_u32_or_zero,
    split_thousands_suffix, strip_trailing_k,
};

verus! {

/// Finds the thread and connection counts: `12 threads and 400 connections`.
pub const THREADS_CONNECTIONS_PATTERN: &'static str = r"(\d+) threads and (\d+) connections";

/// Finds the latency columns: `Latency   635.91us    0.89ms  12.92ms   93.69%`.
pub const LATENCY_PATTERN: &'static str = r"Latency +(\S+) +(\S+) +(\S+) +(\S+)";

/// Finds the per-thread request-rate columns: `Req/Sec    56.20k     8.07k   62.00k    86.54%`.
pub const REQUESTS_PER_SEC_PATTERN: &'static str = r"Req/Sec +(\S+) +(\S+) +(\S+) +(\S+)";

/// Finds the totals: `22464657 requests in 1.00m, 17.76GB read`.
pub const TOTAL_REQUESTS_PATTERN: &'static str = r"(\d+) requests in (\S+), (\S+) read";

/// Finds the overall rate: `Requests/sec: 373564.44`.
pub const REQUESTS_PER_SEC_OVERALL_PATTERN: &'static str = r"Requests/sec: +(\S+)";

/// The name every report is filed under.
pub const TEST_NAME: &'static str = "ci-benchmark";

/// A request-rate column: the number text and whether it carried the
/// thousands suffix `k`. The rate is the `f64` that `str::parse::<f64>`
/// gives for `number` (`0.0` where that fails), times 1000 when
/// `thousands` is set.
#[derive(Clone, Debug, PartialEq, Eq)]
pub struct RateText {
    pub number: String,
    pub thousands: bool,
}

/// The four columns of the `Req/Sec` line. `stdev` is read as an `f64`
/// without the thousands suffix (`0.0` where it does not parse).
#[derive(Clone, Debug, PartialEq, Eq)]
pub struct RequestStats {
    pub avg: RateText,
    pub stdev: String,
    pub max: RateText,
    pub deviation: String,
}

/// Latency and request-rate statistics.
#[derive(Clone, Debug, PartialEq, Eq)]
pub struct Stats {
    pub latency: LatencyStats,
    pub requests_per_second: RequestStats,
}

/// Everything read from one report. `requests_per_second_overall` is read
/// as an `f64` (`0.0` where it does not parse).
#[derive(Clone, Debug, PartialEq, Eq)]
pub struct BenchmarkData {
    pub test_name: String,
    pub threads: u32,
    pub connections: u32,
    pub stats: Stats,
    pub total_requests: u32,
    pub data_transferred: String,
    pub requests_per_second_overall: String,
    pub min_latency: String,
}

pub struct RateView {
    pub number: Seq<char>,
    pub thousands: bool,
}

pub struct RequestView {
    pub avg: RateView,
    pub stdev: Seq<char>,
    pub max: RateView,
    pub deviation: Seq<char>,
}

/// A `BenchmarkData` with every text as a character sequence.
pub struct BenchmarkView {
    pub test_name: Seq<char>,
    pub threads: u32,
    pub connections: u32,
    pub latency: LatencyView,
    pub requests: RequestView,
    pub total_requests: u32,
    pub data_transferred: Seq<char>,
    pub requests_overall: Seq<char>,
    pub min_latency: Seq<char>,
}

impl View for RateText {
    type V = RateView;

    open spec fn view(&self) -> RateView {
        RateView { number: self.number@, thousands: self.thousands }
    }
}

impl View for RequestStats {
    type V = RequestView;

    open spec fn view(&self) -> RequestView {
        RequestView {
            avg: self.avg@,
            stdev: self.stdev@,
            max: self.max@,
            deviation: self.deviation@,
        }
    }
}

impl View for BenchmarkData {
    type V = BenchmarkView;

    open spec fn view(&self) -> BenchmarkView {
        BenchmarkView {
            test_name: self.test_name@,
            threads: self.threads,
            connections: self.connections,
            latency: self.stats.latency@,
            requests: self.stats.requests_per_second@,
            total_requests: self.total_requests,
            data_transferred: self.data_transferred@,
            requests_overall: self.requests_per_second_overall@,
            min_latency: self.min_latency@,
        }
    }
}

/// The kinds of report line that carry data, in the order they are tried.
#[derive(Clone, Copy, Debug, PartialEq, Eq)]
pub enum LineKind {
    ThreadsConnections,
    Latency,
    RequestsPerSec,
    TotalRequests,
    RequestsPerSecOverall,
}

/// A line whose pattern matched but left a capture group it reads empty.
#[derive(Clone, Copy, Debug, PartialEq, Eq)]
pub enum LineError {
    MissingGroup(LineKind),
}

/// The compiled patterns of the five kinds of line.
#[derive(Debug)]
pub struct BenchmarkPatterns {
    pub threads_connections: Pattern,
    pub latency: Pattern,
    pub requests_per_sec: Pattern,
    pub total_requests: Pattern,
    pub requests_per_sec_overall: Pattern,
}

/// The text of a capture group known to be present.
pub open spec fn group(g: Seq<Option<Seq<char>>>, i: int) -> Seq<char> {
    match g[i] {
        Some(t) => t,
        None => Seq::empty(),
    }
}

/// Whether groups `1` to `n` of `g` all took part in the match.
pub open spec fn has_groups(g: Seq<Option<Seq<char>>>, n: int) -> bool {
    &&& n < g.len()
    &&& forall|i: int| 1 <= i <= n ==> #[trigger] g[i] is Some
}

/// How many groups a line of kind `k` reads.
pub open spec fn groups_read(k: LineKind) -> int {
    match k {
        LineKind::ThreadsConnections => 2,
        LineKind::Latency => 4,
        LineKind::RequestsPerSec => 4,
        LineKind::TotalRequests => 3,
        LineKind::RequestsPerSecOverall => 1,
    }
}

/// A request-rate column read from its text.
pub open spec fn spec_rate(s: Seq<char>) -> RateView {
    RateView {
        number: if ends_with_k(s) {
            strip_trailing_k(s)
        } else {
            s
        },
        thousands: ends_with_k(s),
    }
}

/// What a line of kind `k` with groups `g` writes into `d`: thread and
/// connection counts; the four latency columns; the four request-rate
/// columns; the request total and the data read (group 2, the duration, is
/// not kept); or the overall rate. Nothing else changes.
pub open spec fn apply_line(d: BenchmarkView, k: LineKind, g: Seq<Option<Seq<char>>>) -> BenchmarkView {
    match k {
        LineKind::ThreadsConnections => BenchmarkView {
            threads: spec_u32_or_zero(group(g, 1)),
            connections: spec_u32_or_zero(group(g, 2)),
            ..d
        },
        LineKind::Latency => BenchmarkView {
            latency: LatencyView {
                avg: group(g, 1),
                stdev: group(g, 2),
                max: group(g, 3),
                deviation: group(g, 4),
            },
            ..d
        },
        LineKind::RequestsPerSec => BenchmarkView {
            requests: RequestView {
                avg: spec_rate(group(g, 1)),
                stdev: group(g, 2),
                max: spec_rate(group(g, 3)),
                deviation: group(g, 4),
            },
            ..d
        },
        LineKind::TotalRequests => BenchmarkView {
            total_requests: spec_u32_or_zero(group(g, 1)),
            data_transferred: group(g, 3),
            ..d
        },
        LineKind::RequestsPerSecOverall => BenchmarkView { requests_overall: group(g, 1), ..d },
    }
}

impl BenchmarkPatterns {
    /// The source text of the pattern for lines of kind `k`.
    pub open spec fn source_of(&self, k: LineKind) -> Seq<char> {
        match k {
            LineKind::ThreadsConnections => self.threads_connections@,
            LineKind::Latency => self.latency@,
            LineKind::RequestsPerSec => self.requests_per_sec@,
            LineKind::TotalRequests => self.total_requests@,
            LineKind::RequestsPerSecOverall => self.requests_per_sec_overall@,
        }
    }

    /// The first kind, in the order of `LineKind`, whose pattern matches `line`.
    pub open spec fn matched_kind(&self, line: Seq<char>) -> Option<LineKind> {
        if regex_captures(self.threads_connections@, line) is Some {
            Some(LineKind::ThreadsConnections)
        } else if regex_captures(self.latency@, line) is Some {
            Some(LineKind::Latency)
        } else if regex_captures(self.requests_per_sec@, line) is Some {
            Some(LineKind::RequestsPerSec)
        } else if regex_captures(self.total_requests@, line) is Some {
            Some(LineKind::TotalRequests)
        } else if regex_captures(self.requests_per_sec_overall@, line) is Some {
            Some(LineKind::RequestsPerSecOverall)
        } else {
            None
        }
    }

    /// What reading `line` does to `d`: a line no pattern matches leaves it
    /// as it is; otherwise the first matching kind writes its groups, or
    /// the line is refused when one of the groups it reads is missing.
    pub open spec fn spec_process_line(&self, d: BenchmarkView, line: Seq<char>) -> Result<
        BenchmarkView,
        LineError,
    > {
        match self.matched_kind(line) {
            None => Ok(d),
            Some(k) => {
                let g = regex_captures(self.source_of(k), line).unwrap();
                if has_groups(g, groups_read(k)) {
                    Ok(apply_line(d, k, g))
                } else {
                    Err(LineError::MissingGroup(k))
                }
            },
        }
    }

    /// Reading `lines` one after the other from `d`, stopping at the first
    /// refused line.
    pub open spec fn spec_process_lines(&self, d: BenchmarkView, lines: Seq<Seq<char>>) -> Result<
        BenchmarkView,
        LineError,
    >
        decreases lines.len(),
    {
        if lines.len() == 0 {
            Ok(d)
        } else {
            match self.spec_process_lines(d, lines.drop_last()) {
                Ok(d1) => self.spec_process_line(d1, lines.last()),
                Err(e) => Err(e),
            }
        }
    }

    /// Compiles the five patterns, in the order of `LineKind`; fails with
    /// the first one that the `regex` crate refuses.
    pub fn new() -> (res: Result<BenchmarkPatterns, PatternError>)
        ensures
            res is Ok <==> (regex_compiles(THREADS_CONNECTIONS_PATTERN@) && regex_compiles(
                LATENCY_PATTERN@,
            ) && regex_compiles(REQUESTS_PER_SEC_PATTERN@) && regex_compiles(
                TOTAL_REQUESTS_PATTERN@,
            ) && regex_compiles(REQUESTS_PER_SEC_OVERALL_PATTERN@)),
            res matches Ok(p) ==> {
                &&& p.threads_connections@ == THREADS_CONNECTIONS_PATTERN@
                &&& p.latency@ == LATENCY_PATTERN@
                &&& p.requests_per_sec@ == REQUESTS_PER_SEC_PATTERN@
                &&& p.total_requests@ == TOTAL_REQUESTS_PATTERN@
                &&& p.requests_per_sec_overall@ == REQUESTS_PER_SEC_OVERALL_PATTERN@
            },
            res matches Err(e) ==> e.pattern@ == (if !regex_compiles(THREADS_CONNECTIONS_PATTERN@) {
                THREADS_CONNECTIONS_PATTERN@
            } else if !regex_compiles(LATENCY_PATTERN@) {
                LATENCY_PATTERN@
            } else if !regex_compiles(REQUESTS_PER_SEC_PATTERN@) {
                REQUESTS_PER_SEC_PATTERN@
            } else if !regex_compiles(TOTAL_REQUESTS_PATTERN@) {
                TOTAL_REQUESTS_PATTERN@
            } else {
                REQUESTS_PER_SEC_OVERALL_PATTERN@
            }),
    {
        let threads_connections = Pattern::new(THREADS_CONNECTIONS_PATTERN)?;
        let latency = Pattern::new(LATENCY_PATTERN)?;
        let requests_per_sec = Pattern::new(REQUESTS_PER_SEC_PATTERN)?;
        let total_requests = Pattern::new(TOTAL_REQUESTS_PATTERN)?;
        let requests_per_sec_overall = Pattern::new(REQUESTS_PER_SEC_OVERALL_PATTERN)?;
        Ok(BenchmarkPatterns {
            threads_connections,
            latency,
            requests_per_sec,
            total_requests,
            requests_per_sec_overall,
        })
    }
}

/// The record before any line is read: the test name `ci-benchmark`,
/// zero counts and empty texts.
pub open spec fn initial_view() -> BenchmarkView {
    BenchmarkView {
        test_name: TEST_NAME@,
        threads: 0,
        connections: 0,
        latency: LatencyView {
            avg: Seq::empty(),
            stdev: Seq::empty(),
            max: Seq::empty(),
            deviation: Seq::empty(),
        },
        requests: RequestView {
            avg: RateView { number: Seq::empty(), thousands: false },
            stdev: Seq::empty(),
            max: RateView { number: Seq::empty(), thousands: false },
            deviation: Seq::empty(),
        },
        total_requests: 0,
        data_transferred: Seq::empty(),
        requests_overall: Seq::empty(),
        min_latency: Seq::empty(),
    }
}

/// The text of group `i`, which took part in the match.
fn group_text(g: &Vec<Option<String>>, i: usize) -> (t: &str)
    requires
        i < g.len(),
        g.deep_view()[i as int] is Some,
    ensures
        t@ == group(g.deep_view(), i as int),
{
    match &g[i] {
        Some(t) => t.as_str(),
        None => "",
    }
}

/// Reads a request-rate column.
pub fn rate_text(s: &str) -> (r: RateText)
    ensures
        r@ == spec_rate(s@),
{
    let (number, thousands) = split_thousands_suffix(s);
    RateText { number, thousands }
}

impl BenchmarkData {
    /// The record before any line is read.
    pub fn new() -> (d: BenchmarkData)
        ensures
            d@ == initial_view(),
    {
        BenchmarkData {
            test_name: String::from_str(TEST_NAME),
            threads: 0,
            connections: 0,
            stats: Stats {
                latency: LatencyStats {
                    avg: String::new(),
                    stdev: String::new(),
                    max: String::new(),
                    deviation: String::new(),
                },
                requests_per_second: RequestStats {
                    avg: RateText { number: String::new(), thousands: false },
                    stdev: String::new(),
                    max: RateText { number: String::new(), thousands: false },
                    deviation: String::new(),
                },
            },
            total_requests: 0,
            data_transferred: String::new(),
            requests_per_second_overall: String::new(),
            min_latency: String::new(),
        }
    }

    /// Writes the groups of a line of kind `k`, which are all present.
    pub fn record_line(&mut self, k: LineKind, g: &Vec<Option<String>>)
        requires
            has_groups(g.deep_view(), groups_read(k)),
        ensures
            final(self)@ == apply_line(old(self)@, k, g.deep_view()),
    {
        let ghost gv = g.deep_view();
        assert(gv[1] is Some);
        match k {
            LineKind::ThreadsConnections => {
                assert(gv[2] is Some);
                self.threads = parse_u32_or_zero(group_text(g, 1));
                self.connections = parse_u32_or_zero(group_text(g, 2));
            },
            LineKind::Latency => {
                assert(gv[2] is Some && gv[3] is Some && gv[4] is Some);
                self.stats.latency = LatencyStats {
                    avg: String::from_str(group_text(g, 1)),
                    stdev: String::from_str(group_text(g, 2)),
                    max: String::from_str(group_text(g, 3)),
                    deviation: String::from_str(group_text(g, 4)),
                };
            },
            LineKind::RequestsPerSec => {
                assert(gv[2] is Some && gv[3] is Some && gv[4] is Some);
                self.stats.requests_per_second = RequestStats {
                    avg: rate_text(group_text(g, 1)),
                    stdev: String::from_str(group_text(g, 2)),
                    max: rate_text(group_text(g, 3)),
                    deviation: String::from_str(group_text(g, 4)),
                };
            },
            LineKind::TotalRequests => {
                assert(gv[3] is Some);
                self.total_requests = parse_u32_or_zero(group_text(g, 1));
                self.data_transferred = String::from_str(group_text(g, 3));
            },
            LineKind::RequestsPerSecOverall => {
                self.requests_per_second_overall = String::from_str(group_text(g, 1));
            },
        }
    }

    /// Checks that the groups a line of kind `k` reads are present and
    /// writes them; refuses the line, changing nothing, otherwise.
    pub fn record_groups(&mut self, k: LineKind, g: &Vec<Option<String>>) -> (res: Result<
        (),
        LineError,
    >)
        ensures
            has_groups(g.deep_view(), groups_read(k)) ==> res is Ok && final(self)@ == apply_line(
                old(self)@,
                k,
                g.deep_view(),
            ),
            !has_groups(g.deep_view(), groups_read(k)) ==> res == Err::<(), LineError>(
                LineError::MissingGroup(k),
            ) && final(self)@ == old(self)@,
    {
        let n: usize = match k {
            LineKind::ThreadsConnections => 2,
            LineKind::Latency => 4,
            LineKind::RequestsPerSec => 4,
            LineKind::TotalRequests => 3,
            LineKind::RequestsPerSecOverall => 1,
        };
        if g.len() <= n {
            return Err(LineError::MissingGroup(k));
        }
        let mut i: usize = 1;
        while i <= n
            invariant
                n < g.len(),
                n == groups_read(k),
                1 <= i <= n + 1,
                forall|j: int| 1 <= j < i ==> #[trigger] g.deep_view()[j] is Some,
            decreases n + 1 - i,
        {
            if g[i].is_none() {
                assert(g.deep_view()[i as int] is None);
                return Err(LineError::MissingGroup(k));
            }
            i = i + 1;
        }
        self.record_line(k, g);
        Ok(())
    }

    /// Reads one line of a report: the first of the five kinds whose pattern
    /// matches the line writes its groups; a line no pattern matches changes
    /// nothing.
    pub fn process_line(&mut self, patterns: &BenchmarkPatterns, line: &str) -> (res: Result<
        (),
        LineError,
    >)
        ensures
            match patterns.spec_process_line(old(self)@, line@) {
                Ok(d) => res is Ok && final(self)@ == d,
                Err(e) => res == Err::<(), LineError>(e) && final(self)@ == old(self)@,
            },
    {
        if let Some(g) = patterns.threads_connections.captures(line) {
            return self.record_groups(LineKind::ThreadsConnections, &g);
        }
        if let Some(g) = patterns.latency.captures(line) {
            return self.record_groups(LineKind::Latency, &g);
        }
        if let Some(g) = patterns.requests_per_sec.captures(line) {
            return self.record_groups(LineKind::RequestsPerSec, &g);
        }
        if let Some(g) = patterns.total_requests.captures(line) {
            return self.record_groups(LineKind::TotalRequests, &g);
        }
        if let Some(g) = patterns.requests_per_sec_overall.captures(line) {
            return self.record_groups(LineKind::RequestsPerSecOverall, &g);
        }
        Ok(())
    }
}

/// Reads the lines of a report, in order, into a fresh record; stops at
/// the first refused line.
pub fn process_lines(patterns: &BenchmarkPatterns, lines: &Vec<String>) -> (res: Result<
    BenchmarkData,
    LineError,
>)
    ensures
        match patterns.spec_process_lines(initial_view(), lines.deep_view()) {
            Ok(d) => res matches Ok(r) && r@ == d,
            Err(e) => res == Err::<BenchmarkData, LineError>(e),
        },
        res matches Ok(r) ==> r.test_name@ == TEST_NAME@ && r.min_latency@.len() == 0,
{
    proof {
        lemma_lines_keep_name_and_min_latency(patterns, initial_view(), lines.deep_view());
    }
    let mut data = BenchmarkData::new();
    let mut i: usize = 0;
    while i < lines.len()
        invariant
            i <= lines.len(),
            patterns.spec_process_lines(initial_view(), lines.deep_view().subrange(0, i as int))
                == Ok::<BenchmarkView, LineError>(data@),
        decreases lines.len() - i,
    {
        let ghost before = data@;
        let r = data.process_line(patterns, lines[i].as_str());
        proof {
            let prefix = lines.deep_view().subrange(0, i + 1);
            assert(prefix.drop_last() =~= lines.deep_view().subrange(0, i as int));
            assert(prefix.last() == lines@[i as int]@);
        }
        match r {
            Ok(()) => {},
            Err(e) => {
                proof {
                    lemma_refusal_persists(patterns, lines.deep_view(), i as int + 1);
                }
                return Err(e);
            },
        }
        i = i + 1;
    }
    assert(lines.deep_view().subrange(0, lines.len() as int) =~= lines.deep_view());
    Ok(data)
}

/// Once a prefix of the lines is refused, the whole is refused with the
/// same error.
proof fn lemma_refusal_persists(patterns: &BenchmarkPatterns, lines: Seq<Seq<char>>, k: int)
    requires
        0 <= k <= lines.len(),
        patterns.spec_process_lines(initial_view(), lines.subrange(0, k)) is Err,
    ensures
        patterns.spec_process_lines(initial_view(), lines) == patterns.spec_process_lines(
            initial_view(),
            lines.subrange(0, k),
        ),
    decreases lines.len() - k,
{
    if k < lines.len() {
        assert(lines.subrange(0, k + 1).drop_last() =~= lines.subrange(0, k));
        lemma_refusal_persists(patterns, lines, k + 1);
    } else {
        assert(lines.subrange(0, k) =~= lines);
    }
}

/// A line that no pattern matches leaves the record as it is.
pub proof fn lemma_unmatched_line_changes_nothing(
    patterns: &BenchmarkPatterns,
    d: BenchmarkView,
    line: Seq<char>,
)
    requires
        patterns.matched_kind(line) is None,
    ensures
        patterns.spec_process_line(d, line) == Ok::<BenchmarkView, LineError>(d),
{
}

/// Reading lines never changes the test name or the minimum latency.
pub proof fn lemma_lines_keep_name_and_min_latency(
    patterns: &BenchmarkPatterns,
    d: BenchmarkView,
    lines: Seq<Seq<char>>,
)
    ensures
        patterns.spec_process_lines(d, lines) matches Ok(d2) ==> d2.test_name == d.test_name
            && d2.min_latency == d.min_latency,
    decreases lines.len(),
{
    if lines.len() > 0 {
        lemma_lines_keep_name_and_min_latency(patterns, d, lines.drop_last());
    }
}

/// A line of a kind overwrites what an earlier line of the same kind wrote.
pub proof fn lemma_same_kind_overwrites(
    d: BenchmarkView,
    k: LineKind,
    g1: Seq<Option<Seq<char>>>,
    g2: Seq<Option<Seq<char>>>,
)
    ensures
        apply_line(apply_line(d, k, g1), k, g2) == apply_line(d, k, g2),
{
}

/// Lines of different kinds write different fields, so their order does
/// not matter.
pub proof fn lemma_different_kinds_commute(
    d: BenchmarkView,
    k1: LineKind,
    g1: Seq<Option<Seq<char>>>,
    k2: LineKind,
    g2: Seq<Option<Seq<char>>>,
)
    requires
        k1 != k2,
    ensures
        apply_line(apply_line(d, k1, g1), k2, g2) == apply_line(apply_line(d, k2, g2), k1, g1),
{
}

/// `r` is what a rate column `t` reads as: the suffix flag is whether `t`
/// ends in `k`; with the flag the number is `t` up to its trailing `k`s
/// (so it does not itself end in `k`), without it the number is `t`.
pub open spec fn rate_read_from(r: RateView, t: Seq<char>) -> bool {
    &&& (r.thousands <==> (t.len() > 0 && t[t.len() - 1] == 'k'))
    &&& if r.thousands {
        &&& r.number.len() <= t.len()
        &&& r.number == t.subrange(0, r.number.len() as int)
        &&& (r.number.len() == 0 || r.number[r.number.len() - 1] != 'k')
        &&& forall|j: int| r.number.len() <= j < t.len() ==> #[trigger] t[j] == 'k'
    } else {
        r.number == t
    }
}

/// The count a column reads as: the `u32` it parses to, or `0`.
pub open spec fn count_read_from(n: u32, t: Seq<char>) -> bool {
    match spec_parse_u32(t) {
        Some(v) => n == v,
        None => n == 0,
    }
}

/// A `Req/Sec` line writes the four request-rate columns, each read from
/// its own group only: the average from group 1, the deviation of the
/// rate from group 2, the maximum from group 3, the spread from group 4.
/// Nothing else changes.
pub proof fn lemma_requests_line_fields(
    d: BenchmarkView,
    g: Seq<Option<Seq<char>>>,
    t1: Seq<char>,
    t2: Seq<char>,
    t3: Seq<char>,
    t4: Seq<char>,
)
    requires
        g.len() > 4,
        g[1] == Some(t1),
        g[2] == Some(t2),
        g[3] == Some(t3),
        g[4] == Some(t4),
    ensures
        ({
            let d2 = apply_line(d, LineKind::RequestsPerSec, g);
            &&& rate_read_from(d2.requests.avg, t1)
            &&& d2.requests.stdev == t2
            &&& rate_read_from(d2.requests.max, t3)
            &&& d2.requests.deviation == t4
            &&& d2 == BenchmarkView { requests: d2.requests, ..d }
        }),
{
    lemma_strip_trailing_k_prefix(t1);
    lemma_strip_trailing_k_prefix(t3);
}

/// A thread line writes the thread count from group 1 and the connection
/// count from group 2, each the `u32` it parses to or `0`. Nothing else
/// changes.
pub proof fn lemma_threads_line_fields(
    d: BenchmarkView,
    g: Seq<Option<Seq<char>>>,
    t1: Seq<char>,
    t2: Seq<char>,
)
    requires
        g.len() > 2,
        g[1] == Some(t1),
        g[2] == Some(t2),
    ensures
        ({
            let d2 = apply_line(d, LineKind::ThreadsConnections, g);
            &&& count_read_from(d2.threads, t1)
            &&& count_read_from(d2.connections, t2)
            &&& d2 == BenchmarkView { threads: d2.threads, connections: d2.connections, ..d }
        }),
{
}

/// A latency line writes its four columns as they are, from groups 1 to 4.
/// Nothing else changes.
pub proof fn lemma_latency_line_fields(
    d: BenchmarkView,
    g: Seq<Option<Seq<char>>>,
    t1: Seq<char>,
    t2: Seq<char>,
    t3: Seq<char>,
    t4: Seq<char>,
)
    requires
        g.len() > 4,
        g[1] == Some(t1),
        g[2] == Some(t2),
        g[3] == Some(t3),
        g[4] == Some(t4),
    ensures
        ({
            let d2 = apply_line(d, LineKind::Latency, g);
            &&& d2.latency.avg == t1
            &&& d2.latency.stdev == t2
            &&& d2.latency.max == t3
            &&& d2.latency.deviation == t4
            &&& d2 == BenchmarkView { latency: d2.latency, ..d }
        }),
{
}

/// A totals line writes the request count from group 1 (the `u32` it
/// parses to, or `0`) and the data read from group 3. Nothing else changes.
pub proof fn lemma_totals_line_fields(
    d: BenchmarkView,
    g: Seq<Option<Seq<char>>>,
    t1: Seq<char>,
    t3: Seq<char>,
)
    requires
        g.len() > 3,
        g[1] == Some(t1),
        g[3] == Some(t3),
    ensures
        ({
            let d2 = apply_line(d, LineKind::TotalRequests, g);
            &&& count_read_from(d2.total_requests, t1)
            &&& d2.data_transferred == t3
            &&& d2 == BenchmarkView {
                total_requests: d2.total_requests,
                data_transferred: d2.data_transferred,
                ..d
            }
        }),
{
}

/// An overall-rate line writes the rate text of group 1. Nothing else
/// changes.
pub proof fn lemma_overall_line_fields(d: BenchmarkView, g: Seq<Option<Seq<char>>>, t1: Seq<char>)
    requires
        g.len() > 1,
        g[1] == Some(t1),
    ensures
        ({
            let d2 = apply_line(d, LineKind::RequestsPerSecOverall, g);
            &&& d2.requests_overall == t1
            &&& d2 == BenchmarkView { requests_overall: t1, ..d }
        }),
{
}

/// Reading two runs of lines one after the other is reading them joined:
/// the second run starts from the record the first one left, and a refusal
/// in the first run stands.
pub proof fn lemma_lines_compose(
    patterns: &BenchmarkPatterns,
    d: BenchmarkView,
    first: Seq<Seq<char>>,
    second: Seq<Seq<char>>,
)
    ensures
        patterns.spec_process_lines(d, first + second) == match patterns.spec_process_lines(
            d,
            first,
        ) {
            Ok(d1) => patterns.spec_process_lines(d1, second),
            Err(e) => Err(e),
        },
    decreases second.len(),
{
    if second.len() == 0 {
        assert(first + second =~= first);
    } else {
        lemma_lines_compose(patterns, d, first, second.drop_last());
        assert((first + second).drop_last() =~= first + second.drop_last());
        assert((first + second).last() == second.last());
    }
}

/// The pattern of kind `k` decides a line whenever it matches and the
/// patterns of the kinds before `k` do not.
pub open spec fn earlier_kinds_miss(patterns: &BenchmarkPatterns, k: LineKind, line: Seq<char>) -> bool {
    match k {
        LineKind::ThreadsConnections => true,
        LineKind::Latency => regex_captures(patterns.threads_connections@, line) is None,
        LineKind::RequestsPerSec => regex_captures(patterns.threads_connections@, line) is None
            && regex_captures(patterns.latency@, line) is None,
        LineKind::TotalRequests => regex_captures(patterns.threads_connections@, line) is None
            && regex_captures(patterns.latency@, line) is None && regex_captures(
            patterns.requests_per_sec@,
            line,
        ) is None,
        LineKind::RequestsPerSecOverall => regex_captures(patterns.threads_connections@, line)
            is None && regex_captures(patterns.latency@, line) is None && regex_captures(
            patterns.requests_per_sec@,
            line,
        ) is None && regex_captures(patterns.total_requests@, line) is None,
    }
}

/// A line whose kind-`k` pattern matches, with no earlier kind matching, is
/// read as a line of kind `k` from that pattern's groups.
pub proof fn lemma_first_matching_kind_reads(
    patterns: &BenchmarkPatterns,
    d: BenchmarkView,
    line: Seq<char>,
    k: LineKind,
    g: Seq<Option<Seq<char>>>,
)
    requires
        regex_captures(patterns.source_of(k), line) == Some(g),
        earlier_kinds_miss(patterns, k, line),
        has_groups(g, groups_read(k)),
    ensures
        patterns.spec_process_line(d, line) == Ok::<BenchmarkView, LineError>(apply_line(d, k, g)),
{
}

} // verus!
