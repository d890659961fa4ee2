//! Latency probing of block-engine endpoints: the endpoint registry, the
//! request a probe sends, the classification of its reply into an outcome,
//! the gathering and ranking of outcomes and the rendering of the report.
pub mod endpoint;
pub mod outcome;
pub mod rank;
pub mod report;
pub mod request;
pub mod text;

pub use endpoint::{endpoints_for, get_mainnet_endpoints, get_testnet_endpoints, Endpoint};
pub use outcome::{collect_outcomes, probe_outcome, status_error, ProbeReply, TestResult};
pub use rank::{rank_before, sort_results};
pub use report::{print_results, render_entry, render_report, NANOS_PER_MILLI};
pub use request::{probe_body, probe_url, rpc_request_body, PROBE_TIMEOUT_SECS, RPC_METHOD, RPC_PATH};
pub use text::{decimal_string, str_less};
