//! Core logic of a checkpointing crawler for a paginated, rate-limited
//! GraphQL endpoint: quota parsing, backoff computation, adaptive page
//! windows, the retrying request executor, the pagination state machine,
//! and the checkpoint filename codec.
//!
//! All I/O (HTTP, filesystem, sleeping, logging) lives outside this crate;
//! these modules work on plain values handed in by the caller.

pub mod checkpoint;
pub mod crawl;
pub mod digits;
pub mod executor;
pub mod query;
pub mod util;

pub use checkpoint::{
    format_checkpoint_name, format_output_rel_path, parse_checkpoint_name, recover,
};
pub use crawl::{crawl_pages, crawl_step, CrawlDecision, CrawlRun, FetchEvent, StopReason};
pub use executor::{
    backoff_seconds, classify_response, executor_step, run_executor, shrink_window, AttemptState,
    ExecOutcome, ExecRun, ResponseClass, ResponseInfo, StepVerdict, Window,
};
pub use query::{QueryResponseData, QueryResult, QueryVariables};
pub use util::{now_unix_seconds, pacing_millis, RateLimit, TaskType};
