use rs_process_info_graphql::cpu::usage_gt;
use rs_process_info_graphql::filter::{keeps_rss, keeps_runtime, keeps_usage};
use rs_process_info_graphql::{
    ProcessInfo, ProcessRecord, ProcessTable, Query, QueryError, QueryFilter, SampleStep,
    SnapshotProvider,
};

fn record(pid: i32, cpu: f32, memory: u64, run_time: u64) -> ProcessRecord {
    ProcessRecord {
        pid,
        cpu_bits: cpu.to_bits(),
        name: format!("proc{}", pid),
        memory,
        run_time,
        virtual_memory: memory * 4,
    }
}

fn info(usage: f32, rss: u64, runtime_ms: u64) -> ProcessInfo {
    ProcessInfo {
        pid: 7,
        usage_bits: usage.to_bits(),
        name: String::from("p"),
        rss,
        runtime_ms,
        vsz: 0,
    }
}

// The two processes of the mock provider; run time is given in seconds.
fn mock_table() -> ProcessTable {
    let mut t = ProcessTable::new();
    t.insert(record(1, 0.5, 2048, 100));
    t.insert(record(2, 5.0, 4096, 5000));
    t
}

fn sorted_pids(v: &[ProcessInfo]) -> Vec<i32> {
    let mut pids: Vec<i32> = v.iter().map(|p| p.pid).collect();
    pids.sort();
    pids
}

fn run(table: &ProcessTable, f: &QueryFilter) -> Vec<ProcessInfo> {
    Query.processes(table, f).unwrap()
}

#[test]
fn min_usage_keeps_only_busy_process() {
    let mut f = QueryFilter::unfiltered();
    f.min_usage_bits = Some(1.0f32.to_bits());
    let r = run(&mock_table(), &f);
    assert_eq!(sorted_pids(&r), vec![2]);
}

#[test]
fn id_returns_only_that_process() {
    let mut f = QueryFilter::unfiltered();
    f.pid = Some(1);
    let r = run(&mock_table(), &f);
    assert_eq!(r.len(), 1);
    assert_eq!(r[0].pid, 1);
    assert_eq!(r[0].name, "proc1");
    assert_eq!(r[0].rss, 2048);
    assert_eq!(r[0].vsz, 8192);
    assert_eq!(r[0].usage_bits, 0.5f32.to_bits());
}

#[test]
fn id_with_other_filters_never_returns_another_process() {
    let mut f = QueryFilter::unfiltered();
    f.pid = Some(1);
    f.min_rss_kb = Some(1);
    assert_eq!(sorted_pids(&run(&mock_table(), &f)), vec![1]);
    f.min_usage_bits = Some(1.0f32.to_bits());
    assert!(run(&mock_table(), &f).is_empty());
}

#[test]
fn no_filters_return_every_process() {
    let r = run(&mock_table(), &QueryFilter::unfiltered());
    assert_eq!(sorted_pids(&r), vec![1, 2]);
}

#[test]
fn absent_id_returns_nothing() {
    let mut f = QueryFilter::unfiltered();
    f.pid = Some(99);
    assert!(run(&mock_table(), &f).is_empty());
    f.pid = Some(-1);
    assert!(run(&mock_table(), &f).is_empty());
}

#[test]
fn runtime_is_seconds_times_thousand() {
    let mut f = QueryFilter::unfiltered();
    f.pid = Some(2);
    let r = run(&mock_table(), &f);
    assert_eq!(r[0].runtime_ms, 5_000_000);
    let p = ProcessInfo::from_process(&record(3, 0.0, 1, 7));
    assert_eq!(p.runtime_ms, 7000);
    assert_eq!(p.pid, 3);
}

#[test]
fn min_runtime_filter_is_strict() {
    let mut f = QueryFilter::unfiltered();
    f.min_runtime_ms = Some(100_000);
    // process 1 ran exactly 100_000 ms
    assert_eq!(sorted_pids(&run(&mock_table(), &f)), vec![2]);
    f.min_runtime_ms = Some(99_999);
    assert_eq!(sorted_pids(&run(&mock_table(), &f)), vec![1, 2]);
}

#[test]
fn min_rss_kb_one_means_above_1024_bytes() {
    let mut t = ProcessTable::new();
    t.insert(record(10, 0.0, 1024, 1));
    t.insert(record(11, 0.0, 1025, 1));
    let mut f = QueryFilter::unfiltered();
    f.min_rss_kb = Some(1);
    assert_eq!(sorted_pids(&run(&t, &f)), vec![11]);
}

#[test]
fn min_rss_filter_is_strict() {
    let mut f = QueryFilter::unfiltered();
    f.min_rss_kb = Some(2);
    assert_eq!(sorted_pids(&run(&mock_table(), &f)), vec![2]);
    f.min_rss_kb = Some(4);
    assert!(run(&mock_table(), &f).is_empty());
}

#[test]
fn equal_metrics_are_excluded() {
    assert!(!keeps_usage(Some(5.0f32.to_bits()), &info(5.0, 0, 0)));
    assert!(!keeps_rss(Some(3), &info(0.0, 3072, 0)));
    assert!(!keeps_runtime(Some(42), &info(0.0, 0, 42)));
    assert!(keeps_usage(Some(5.0f32.to_bits()), &info(5.5, 0, 0)));
    assert!(keeps_rss(Some(3), &info(0.0, 3073, 0)));
    assert!(keeps_runtime(Some(42), &info(0.0, 0, 43)));
    assert!(keeps_usage(None, &info(0.0, 0, 0)));
}

#[test]
fn huge_rss_threshold_keeps_nothing() {
    assert!(!keeps_rss(Some(u64::MAX), &info(0.0, u64::MAX, 0)));
    assert!(keeps_rss(Some(u64::MAX / 1024 - 1), &info(0.0, u64::MAX, 0)));
}

#[test]
fn usage_comparison_follows_f32() {
    let cases: [(f32, f32); 9] = [
        (1.0, 0.5),
        (0.5, 1.0),
        (0.0, -0.0),
        (-0.0, 0.0),
        (0.1, -0.1),
        (-0.1, 0.1),
        (-1.0, -2.0),
        (f32::INFINITY, f32::MAX),
        (f32::NAN, 0.0),
    ];
    for (a, b) in cases {
        assert_eq!(usage_gt(a.to_bits(), b.to_bits()), a > b, "{} > {}", a, b);
    }
    assert!(!usage_gt(0.0f32.to_bits(), f32::NAN.to_bits()));
}

#[test]
fn repeated_query_returns_same_records() {
    let t = mock_table();
    let f = QueryFilter::unfiltered();
    let a = run(&t, &f);
    let b = run(&t, &f);
    let names = |v: &[ProcessInfo]| {
        let mut n: Vec<(i32, String)> = v.iter().map(|p| (p.pid, p.name.clone())).collect();
        n.sort();
        n
    };
    assert_eq!(names(&a), names(&b));
}

#[test]
fn overlong_runtime_is_an_error() {
    let mut t = mock_table();
    t.insert(record(3, 0.0, 0, u64::MAX / 1000 + 1));
    let r = Query.processes(&t, &QueryFilter::unfiltered());
    assert!(matches!(r, Err(QueryError::RuntimeOverflow)));
    let mut f = QueryFilter::unfiltered();
    f.pid = Some(1);
    assert_eq!(run(&t, &f).len(), 1);
    f.pid = Some(3);
    assert!(matches!(Query.processes(&t, &f), Err(QueryError::RuntimeOverflow)));
    let mut ok = ProcessTable::new();
    ok.insert(record(4, 0.0, 0, u64::MAX / 1000));
    assert_eq!(run(&ok, &QueryFilter::unfiltered())[0].runtime_ms, u64::MAX / 1000 * 1000);
}

#[test]
fn zero_settle_still_refreshes_twice() {
    let mut f = QueryFilter::unfiltered();
    f.settle_ms = Some(0);
    let plan = Query.sampling_plan(&f);
    assert_eq!(
        plan,
        vec![SampleStep::Refresh, SampleStep::Settle(0), SampleStep::Refresh, SampleStep::Read]
    );
}

#[test]
fn default_settle_is_500_ms() {
    let plan = Query.sampling_plan(&QueryFilter::unfiltered());
    assert_eq!(plan[1], SampleStep::Settle(500));
    assert_eq!(plan.len(), 4);
}

#[test]
fn table_insert_replaces_same_id() {
    let mut t = mock_table();
    assert_eq!(t.len(), 2);
    t.insert(record(1, 9.0, 1, 1));
    assert_eq!(t.len(), 2);
    let r = t.lookup(1).unwrap();
    assert_eq!(r.cpu_bits, 9.0f32.to_bits());
    assert!(t.lookup(5).is_none());
    let mut ids = t.process_ids();
    ids.sort();
    assert_eq!(ids, vec![1, 2]);
}
