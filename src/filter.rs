//! The parameters of a query, and the threshold predicates over metrics.
//! Each predicate is a strict greater-than test; an absent threshold keeps
//! every process.

use vstd::prelude::*;
use crate::cpu::{gt_bits, usage_gt};
use crate::metrics::{InfoView, ProcessInfo};

verus! {

/// Bytes in a kibibyte.
pub const BYTES_PER_KIB: u64 = 1024;

/// Settle delay, in milliseconds, when a query gives none.
pub const DEFAULT_SETTLE_MS: u64 = 500;

/// What a caller may ask of a query; every part is optional.
#[derive(Clone, Copy)]
pub struct QueryFilter {
    /// Restrict the result to the process with this id.
    pub pid: Option<i32>,
    /// Keep processes whose CPU usage is above this `f32` (as bits).
    pub min_usage_bits: Option<u32>,
    /// Keep processes whose resident memory is above this many KiB.
    pub min_rss_kb: Option<u64>,
    /// Keep processes that have run longer than this many milliseconds.
    pub min_runtime_ms: Option<u64>,
    /// Delay between the two refreshes, in milliseconds.
    pub settle_ms: Option<u64>,
}

impl QueryFilter {
    /// A filter that asks for nothing: every process, default settle delay.
    pub fn unfiltered() -> (r: QueryFilter)
        ensures
            r.pid is None,
            r.min_usage_bits is None,
            r.min_rss_kb is None,
            r.min_runtime_ms is None,
            r.settle_ms is None,
    {
        QueryFilter {
            pid: None,
            min_usage_bits: None,
            min_rss_kb: None,
            min_runtime_ms: None,
            settle_ms: None,
        }
    }
}

pub open spec fn usage_ok(threshold: Option<u32>, info: InfoView) -> bool {
    match threshold {
        Some(t) => gt_bits(info.usage_bits, t),
        None => true,
    }
}

pub open spec fn rss_ok(threshold_kb: Option<u64>, info: InfoView) -> bool {
    match threshold_kb {
        Some(kb) => info.rss as int > kb as int * BYTES_PER_KIB as int,
        None => true,
    }
}

pub open spec fn runtime_ok(threshold: Option<u64>, info: InfoView) -> bool {
    match threshold {
        Some(t) => info.runtime_ms > t as int,
        None => true,
    }
}

/// The metrics pass every threshold the filter sets.
pub open spec fn passes(f: QueryFilter, info: InfoView) -> bool {
    usage_ok(f.min_usage_bits, info) && rss_ok(f.min_rss_kb, info) && runtime_ok(
        f.min_runtime_ms,
        info,
    )
}

pub fn keeps_usage(threshold: Option<u32>, info: &ProcessInfo) -> (r: bool)
    ensures
        r == usage_ok(threshold, info@),
{
    match threshold {
        Some(t) => usage_gt(info.usage_bits, t),
        None => true,
    }
}

pub fn keeps_rss(threshold_kb: Option<u64>, info: &ProcessInfo) -> (r: bool)
    ensures
        r == rss_ok(threshold_kb, info@),
{
    match threshold_kb {
        Some(kb) => {
            if kb > u64::MAX / BYTES_PER_KIB {
                false
            } else {
                info.rss > kb * BYTES_PER_KIB
            }
        },
        None => true,
    }
}

pub fn keeps_runtime(threshold: Option<u64>, info: &ProcessInfo) -> (r: bool)
    ensures
        r == runtime_ok(threshold, info@),
{
    match threshold {
        Some(t) => info.runtime_ms > t,
        None => true,
    }
}

/// Whether the metrics pass all of the filter's thresholds.
pub fn keeps(f: &QueryFilter, info: &ProcessInfo) -> (r: bool)
    ensures
        r == passes(*f, info@),
{
    keeps_usage(f.min_usage_bits, info) && keeps_rss(f.min_rss_kb, info) && keeps_runtime(
        f.min_runtime_ms,
        info,
    )
}

} // verus!
