//! A bounded-concurrency network probing engine.
//!
//! Given a base URL and a deduplicated list of path candidates, the engine
//! plans one HTTP existence probe per candidate, caps how many probes may be
//! in flight at once, accumulates confirmed hits in discovery order, and
//! renders periodic progress snapshots. A second, structurally similar pass
//! records which of a fixed set of TCP ports accepted a connection.
//!
//! All network, terminal and file traffic lives outside this crate; the
//! library holds the decisions: candidate merging, URL construction, response
//! classification, result aggregation, progress windows, port records, the
//! API-call line scan, and the phase machine that sequences a run.

pub mod aggregator;
pub mod candidates;
pub mod limiter;
pub mod orchestrator;
pub mod ports;
pub mod probe;
pub mod progress;
pub mod scrape;
