//! Verified core of the CI helper tools: reading wrk benchmark reports into
//! structured data, checking pull-request titles, and picking labels for
//! pull requests.

pub mod benchmark;
pub mod float_order;
pub mod labels;
pub mod latency;
pub mod pattern;
pub mod pr_title;
pub mod text;
