//! Process snapshot queries: project the records of a process table into
//! metrics and keep those that pass a set of strict-threshold filters.

pub mod cpu;
pub mod metrics;
pub mod filter;
pub mod provider;
pub mod host;
pub mod query;

pub use filter::QueryFilter;
pub use metrics::{ProcessInfo, ProcessRecord};
pub use provider::{ProcessTable, SnapshotProvider};
pub use query::{Query, QueryError, SampleStep};
