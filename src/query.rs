//! The query engine: the order of refreshes that makes CPU figures valid,
//! and the selection of metrics from a refreshed process table.

use vstd::prelude::*;
use crate::cpu::order_key;
use crate::filter::{keeps, passes, QueryFilter, BYTES_PER_KIB, DEFAULT_SETTLE_MS};
use crate::metrics::{
    project, runtime_fits, InfoView, ProcessInfo, RecordView, MILLIS_PER_SECOND,
};
use crate::provider::SnapshotProvider;

verus! {

/// The query root.
pub struct Query;

/// One step of sampling the process table.
#[derive(PartialEq, Eq, Structural, Debug, Clone, Copy)]
pub enum SampleStep {
    /// Re-read the whole process table.
    Refresh,
    /// Wait this many milliseconds.
    Settle(u64),
    /// Select from the table as it now stands.
    Read,
}

/// Why a query returned no records.
#[derive(PartialEq, Eq, Structural, Debug, Clone, Copy)]
pub enum QueryError {
    /// A candidate's run time, in milliseconds, does not fit in a `u64`.
    RuntimeOverflow,
}

/// The delay between the two refreshes.
pub open spec fn settle_delay(settle_ms: Option<u64>) -> u64 {
    match settle_ms {
        Some(ms) => ms,
        None => DEFAULT_SETTLE_MS,
    }
}

/// Refresh, wait, refresh again, then read: CPU usage is a delta between
/// two refreshes.
pub open spec fn plan_of(settle_ms: Option<u64>) -> Seq<SampleStep> {
    seq![
        SampleStep::Refresh,
        SampleStep::Settle(settle_delay(settle_ms)),
        SampleStep::Refresh,
        SampleStep::Read,
    ]
}

/// `order` lists every id of the table once.
pub open spec fn lists_all(table: Map<i32, RecordView>, order: Seq<i32>) -> bool {
    order.no_duplicates() && order.to_set() == table.dom()
}

/// The metrics of the listed processes that pass the filter's thresholds,
/// in the order listed.
pub open spec fn select_listed(
    table: Map<i32, RecordView>,
    f: QueryFilter,
    order: Seq<i32>,
) -> Seq<InfoView>
    decreases order.len(),
{
    if order.len() == 0 {
        Seq::empty()
    } else {
        let prev = select_listed(table, f, order.drop_last());
        let info = project(table[order.last()]);
        if passes(f, info) {
            prev.push(info)
        } else {
            prev
        }
    }
}

/// The metrics of process `pid`, if the table holds it and it passes.
pub open spec fn select_one(table: Map<i32, RecordView>, f: QueryFilter, pid: i32) -> Seq<
    InfoView,
> {
    if table.contains_key(pid) && passes(f, project(table[pid])) {
        seq![project(table[pid])]
    } else {
        Seq::empty()
    }
}

/// What a query returns when the provider lists the table in `order`.
pub open spec fn query_result(
    table: Map<i32, RecordView>,
    f: QueryFilter,
    order: Seq<i32>,
) -> Seq<InfoView> {
    match f.pid {
        Some(pid) => select_one(table, f, pid),
        None => select_listed(table, f, order),
    }
}

/// Every candidate's run time can be given in milliseconds.
pub open spec fn candidates_fit(table: Map<i32, RecordView>, f: QueryFilter) -> bool {
    match f.pid {
        Some(pid) => table.contains_key(pid) ==> runtime_fits(table[pid]),
        None => forall|k: i32| #[trigger] table.contains_key(k) ==> runtime_fits(table[k]),
    }
}

pub open spec fn views(v: Seq<ProcessInfo>) -> Seq<InfoView> {
    v.map_values(|i: ProcessInfo| i@)
}

impl Query {
    /// The steps that sample the process table for a query.
    pub fn sampling_plan(&self, filter: &QueryFilter) -> (r: Vec<SampleStep>)
        ensures
            r@ == plan_of(filter.settle_ms),
    {
        let delay = match filter.settle_ms {
            Some(ms) => ms,
            None => DEFAULT_SETTLE_MS,
        };
        let r = vec![
            SampleStep::Refresh,
            SampleStep::Settle(delay),
            SampleStep::Refresh,
            SampleStep::Read,
        ];
        assert(r@ =~= plan_of(filter.settle_ms));
        r
    }

    /// The metrics of the provider's processes that the filter keeps. With
    /// an id, only that process is a candidate; without, every listed one is,
    /// in the order the provider lists them.
    pub fn processes<P: SnapshotProvider>(&self, provider: &P, filter: &QueryFilter) -> (r:
        Result<Vec<ProcessInfo>, QueryError>)
        ensures
            r is Err <==> !candidates_fit(provider.table(), *filter),
            match r {
                Ok(v) => match filter.pid {
                    Some(pid) => views(v@) == select_one(provider.table(), *filter, pid),
                    None => exists|order: Seq<i32>|
                        lists_all(provider.table(), order) && views(v@) == select_listed(
                            provider.table(),
                            *filter,
                            order,
                        ),
                },
                Err(e) => e == QueryError::RuntimeOverflow,
            },
    {
        let ghost table = provider.table();
        match filter.pid {
            Some(pid) => {
                let mut out: Vec<ProcessInfo> = Vec::new();
                match provider.lookup(pid) {
                    Some(rec) => {
                        if rec.run_time > u64::MAX / MILLIS_PER_SECOND {
                            return Err(QueryError::RuntimeOverflow);
                        }
                        let info = ProcessInfo::from_process(&rec);
                        if keeps(filter, &info) {
                            out.push(info);
                        }
                    },
                    None => {},
                }
                assert(views(out@) =~= select_one(table, *filter, pid));
                Ok(out)
            },
            None => {
                let ids = provider.process_ids();
                let mut out: Vec<ProcessInfo> = Vec::new();
                let mut i: usize = 0;
                while i < ids.len()
                    invariant
                        table == provider.table(),
                        filter.pid is None,
                        i <= ids@.len(),
                        ids@.to_set() == table.dom(),
                        views(out@) == select_listed(table, *filter, ids@.take(i as int)),
                        forall|j: int| 0 <= j < i ==> runtime_fits(table[#[trigger] ids@[j]]),
                    decreases ids@.len() - i,
                {
                    let id = ids[i];
                    assert(ids@.to_set().contains(id));
                    assert(ids@.take(i as int + 1).drop_last() =~= ids@.take(i as int));
                    match provider.lookup(id) {
                        Some(rec) => {
                            if rec.run_time > u64::MAX / MILLIS_PER_SECOND {
                                return Err(QueryError::RuntimeOverflow);
                            }
                            let info = ProcessInfo::from_process(&rec);
                            if keeps(filter, &info) {
                                out.push(info);
                            }
                            assert(views(out@) =~= select_listed(
                                table,
                                *filter,
                                ids@.take(i as int + 1),
                            ));
                        },
                        None => {},
                    }
                    i = i + 1;
                }
                proof {
                    assert(ids@.take(ids@.len() as int) =~= ids@);
                    assert(lists_all(table, ids@));
                    assert forall|k: i32| #[trigger] table.contains_key(k) implies runtime_fits(
                        table[k],
                    ) by {
                        assert(ids@.to_set().contains(k));
                        let j = choose|j: int| 0 <= j < ids@.len() && ids@[j] == k;
                        assert(runtime_fits(table[ids@[j]]));
                    }
                }
                Ok(out)
            },
        }
    }
}

/// The same filter with its thresholds dropped: same id, same delay.
pub open spec fn without_thresholds(f: QueryFilter) -> QueryFilter {
    QueryFilter { min_usage_bits: None, min_rss_kb: None, min_runtime_ms: None, ..f }
}

/// Some listed process passes the filter and projects to `x`.
pub open spec fn listed_pass(
    table: Map<i32, RecordView>,
    f: QueryFilter,
    order: Seq<i32>,
    x: InfoView,
) -> bool {
    exists|j: int|
        0 <= j < order.len() && passes(f, project(table[order[j]])) && x == project(
            table[#[trigger] order[j]],
        )
}

proof fn lemma_select_contains(
    table: Map<i32, RecordView>,
    f: QueryFilter,
    order: Seq<i32>,
    x: InfoView,
)
    ensures
        select_listed(table, f, order).contains(x) == listed_pass(table, f, order, x),
    decreases order.len(),
{
    if order.len() > 0 {
        let o2 = order.drop_last();
        let n = order.len() - 1;
        lemma_select_contains(table, f, o2, x);
        let prev = select_listed(table, f, o2);
        let info = project(table[order[n]]);
        let s = select_listed(table, f, order);
        if s.contains(x) {
            if prev.contains(x) {
                let j = choose|j: int|
                    0 <= j < o2.len() && passes(f, project(table[o2[j]])) && x == project(
                        table[#[trigger] o2[j]],
                    );
                assert(order[j] == o2[j]);
            } else {
                let k = choose|k: int| 0 <= k < s.len() && s[k] == x;
                if passes(f, info) {
                    if k < prev.len() {
                        assert(prev[k] == x);
                    }
                    assert(x == info);
                }
                assert(order[n] == order[n]);
            }
        }
        if listed_pass(table, f, order, x) {
            let j = choose|j: int|
                0 <= j < order.len() && passes(f, project(table[order[j]])) && x == project(
                    table[#[trigger] order[j]],
                );
            if j < n {
                assert(o2[j] == order[j]);
                assert(prev.contains(x));
                let k = choose|k: int| 0 <= k < prev.len() && prev[k] == x;
                if passes(f, info) {
                    assert(s[k] == x);
                }
            } else {
                assert(s[s.len() - 1] == x);
            }
        }
    }
}

/// Thresholds only narrow a result: whatever a query returns, the same
/// query without thresholds, over the same table and listing, returns too.
pub proof fn lemma_thresholds_narrow(table: Map<i32, RecordView>, f: QueryFilter, order: Seq<i32>)
    ensures
        forall|x: InfoView| #[trigger]
            query_result(table, f, order).contains(x) ==> query_result(
                table,
                without_thresholds(f),
                order,
            ).contains(x),
{
    let g = without_thresholds(f);
    assert forall|x: InfoView| #[trigger] query_result(table, f, order).contains(x) implies query_result(
        table,
        g,
        order,
    ).contains(x) by {
        match f.pid {
            Some(pid) => {
                assert(query_result(table, g, order)[0] == x);
            },
            None => {
                lemma_select_contains(table, f, order, x);
                lemma_select_contains(table, g, order, x);
                let j = choose|j: int|
                    0 <= j < order.len() && passes(f, project(table[order[j]])) && x == project(
                        table[#[trigger] order[j]],
                    );
                assert(passes(g, project(table[order[j]])));
            },
        }
    }
}

/// Every threshold is strict: a metric equal to its threshold fails.
pub proof fn lemma_threshold_is_strict(f: QueryFilter, info: InfoView)
    ensures
        f.min_usage_bits == Some(info.usage_bits) ==> !passes(f, info),
        f.min_rss_kb matches Some(kb) && info.rss as int == kb as int * BYTES_PER_KIB as int
            ==> !passes(f, info),
        f.min_runtime_ms matches Some(t) && info.runtime_ms == t as int ==> !passes(f, info),
{
    assert(order_key(info.usage_bits) == order_key(info.usage_bits));
}

/// With an id, a query returns that process's metrics or nothing, and
/// nothing when the table does not hold the id.
pub proof fn lemma_id_selects_at_most_one(
    table: Map<i32, RecordView>,
    f: QueryFilter,
    order: Seq<i32>,
)
    requires
        f.pid is Some,
    ensures
        query_result(table, f, order).len() <= 1,
        !table.contains_key(f.pid->0) ==> query_result(table, f, order).len() == 0,
        forall|i: int|
            0 <= i < query_result(table, f, order).len() ==> #[trigger] query_result(
                table,
                f,
                order,
            )[i] == project(table[f.pid->0]),
{
}

/// Over an unchanged table, a query returns the same records whatever
/// order the provider lists the processes in.
pub proof fn lemma_listing_order_irrelevant(
    table: Map<i32, RecordView>,
    f: QueryFilter,
    o1: Seq<i32>,
    o2: Seq<i32>,
)
    requires
        lists_all(table, o1),
        lists_all(table, o2),
    ensures
        query_result(table, f, o1).to_set() == query_result(table, f, o2).to_set(),
{
    if f.pid is None {
        assert forall|x: InfoView|
            #![trigger query_result(table, f, o1).contains(x)]
            #![trigger query_result(table, f, o2).contains(x)]
            query_result(table, f, o1).contains(x) == query_result(table, f, o2).contains(x) by {
            lemma_select_contains(table, f, o1, x);
            lemma_select_contains(table, f, o2, x);
            if listed_pass(table, f, o1, x) {
                let j = choose|j: int|
                    0 <= j < o1.len() && passes(f, project(table[o1[j]])) && x == project(
                        table[#[trigger] o1[j]],
                    );
                assert(o1.to_set().contains(o1[j]));
                assert(o2.to_set().contains(o1[j]));
                let k = choose|k: int| 0 <= k < o2.len() && o2[k] == o1[j];
                assert(o2[k] == o1[j]);
            }
            if listed_pass(table, f, o2, x) {
                let j = choose|j: int|
                    0 <= j < o2.len() && passes(f, project(table[o2[j]])) && x == project(
                        table[#[trigger] o2[j]],
                    );
                assert(o2.to_set().contains(o2[j]));
                assert(o1.to_set().contains(o2[j]));
                let k = choose|k: int| 0 <= k < o1.len() && o1[k] == o2[j];
                assert(o1[k] == o2[j]);
            }
        }
    }
    assert(query_result(table, f, o1).to_set() =~= query_result(table, f, o2).to_set());
}

/// Every plan refreshes, waits the settle delay (a zero delay too), refreshes
/// again and only then reads.
pub proof fn lemma_plan_refreshes_twice(settle_ms: Option<u64>)
    ensures
        plan_of(settle_ms).len() == 4,
        plan_of(settle_ms)[0] == SampleStep::Refresh,
        plan_of(settle_ms)[1] == SampleStep::Settle(settle_delay(settle_ms)),
        plan_of(settle_ms)[2] == SampleStep::Refresh,
        plan_of(settle_ms)[3] == SampleStep::Read,
        settle_ms == Some(0u64) ==> plan_of(settle_ms)[1] == SampleStep::Settle(0),
        settle_ms is None ==> plan_of(settle_ms)[1] == SampleStep::Settle(DEFAULT_SETTLE_MS),
{
}

/// Without thresholds a query keeps every listed process, in order.
pub proof fn lemma_no_thresholds_keep_all(
    table: Map<i32, RecordView>,
    f: QueryFilter,
    order: Seq<i32>,
)
    ensures
        select_listed(table, without_thresholds(f), order) == order.map_values(
            |k: i32| project(table[k]),
        ),
    decreases order.len(),
{
    if order.len() > 0 {
        lemma_no_thresholds_keep_all(table, f, order.drop_last());
    }
    assert(select_listed(table, without_thresholds(f), order) =~= order.map_values(
        |k: i32| project(table[k]),
    ));
}

} // verus!
