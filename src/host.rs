//! The host's process table, through `sysinfo::System`. The table is what
//! the last `refresh_all` read; lookups and listings read that same map.

use vstd::prelude::*;
use crate::metrics::{ProcessRecord, RecordView};
use crate::provider::SnapshotProvider;

verus! {

#[verifier::external_type_specification]
#[verifier::external_body]
pub struct ExSystem(sysinfo::System);

/// The processes that a `System` holds, by process id, as records.
pub uninterp spec fn system_table(s: sysinfo::System) -> Map<i32, RecordView>;

/// Relies on `sysinfo::System::process`, a lookup by pid in the process map
/// of the last refresh, and on the found `Process`'s `pid`, `cpu_usage`,
/// `name`, `memory`, `run_time` and `virtual_memory` to read it into a record.
#[verifier::external_body]
fn find_process(sys: &sysinfo::System, pid: i32) -> (r: Option<ProcessRecord>)
    ensures
        match r {
            Some(rec) => system_table(*sys).contains_key(pid) && rec@ == system_table(*sys)[pid],
            None => !system_table(*sys).contains_key(pid),
        },
{
    match sys.process(sysinfo::Pid::from(pid as usize)) {
        Some(p) => Some(ProcessRecord {
            pid: p.pid().as_u32() as i32,
            cpu_bits: p.cpu_usage().to_bits(),
            name: p.name().to_string_lossy().into_owned(),
            memory: p.memory(),
            run_time: p.run_time(),
            virtual_memory: p.virtual_memory(),
        }),
        None => None,
    }
}

/// Relies on `sysinfo::System::processes`: the map that `process` looks up;
/// its keys are distinct pids.
#[verifier::external_body]
fn system_process_ids(sys: &sysinfo::System) -> (r: Vec<i32>)
    ensures
        r@.no_duplicates(),
        r@.to_set() == system_table(*sys).dom(),
{
    sys.processes().keys().map(|pid| pid.as_u32() as i32).collect()
}

impl SnapshotProvider for sysinfo::System {
    open spec fn table(&self) -> Map<i32, RecordView> {
        system_table(*self)
    }

    fn lookup(&self, pid: i32) -> (r: Option<ProcessRecord>) {
        find_process(self, pid)
    }

    fn process_ids(&self) -> (r: Vec<i32>) {
        system_process_ids(self)
    }
}

} // verus!
