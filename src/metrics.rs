//! A process as the snapshot provider reports it, and the metrics a query
//! returns for it.

use vstd::prelude::*;

verus! {

/// Milliseconds in a second.
pub const MILLIS_PER_SECOND: u64 = 1000;

/// One process as read from the process table.
pub struct ProcessRecord {
    pub pid: i32,
    /// CPU usage in percent, as the bit pattern of an `f32`.
    pub cpu_bits: u32,
    pub name: String,
    /// Resident memory in bytes.
    pub memory: u64,
    /// Time since the process started, in seconds.
    pub run_time: u64,
    /// Virtual memory in bytes.
    pub virtual_memory: u64,
}

pub struct RecordView {
    pub pid: i32,
    pub cpu_bits: u32,
    pub name: Seq<char>,
    pub memory: u64,
    pub run_time: u64,
    pub virtual_memory: u64,
}

impl View for ProcessRecord {
    type V = RecordView;

    open spec fn view(&self) -> RecordView {
        RecordView {
            pid: self.pid,
            cpu_bits: self.cpu_bits,
            name: self.name@,
            memory: self.memory,
            run_time: self.run_time,
            virtual_memory: self.virtual_memory,
        }
    }
}

impl ProcessRecord {
    /// A copy of the record.
    pub fn duplicate(&self) -> (r: ProcessRecord)
        ensures
            r@ == self@,
    {
        ProcessRecord {
            pid: self.pid,
            cpu_bits: self.cpu_bits,
            name: self.name.clone(),
            memory: self.memory,
            run_time: self.run_time,
            virtual_memory: self.virtual_memory,
        }
    }
}

/// The metrics reported for one process.
pub struct ProcessInfo {
    pub pid: i32,
    /// CPU usage in percent, as the bit pattern of an `f32`.
    pub usage_bits: u32,
    pub name: String,
    /// Resident memory in bytes.
    pub rss: u64,
    /// Time since the process started, in milliseconds.
    pub runtime_ms: u64,
    /// Virtual memory in bytes.
    pub vsz: u64,
}

pub struct InfoView {
    pub pid: i32,
    pub usage_bits: u32,
    pub name: Seq<char>,
    pub rss: u64,
    pub runtime_ms: int,
    pub vsz: u64,
}

impl View for ProcessInfo {
    type V = InfoView;

    open spec fn view(&self) -> InfoView {
        InfoView {
            pid: self.pid,
            usage_bits: self.usage_bits,
            name: self.name@,
            rss: self.rss,
            runtime_ms: self.runtime_ms as int,
            vsz: self.vsz,
        }
    }
}

/// The record's run time converted to milliseconds fits in a `u64`.
pub open spec fn runtime_fits(rec: RecordView) -> bool {
    rec.run_time as int * MILLIS_PER_SECOND as int <= u64::MAX as int
}

/// The metrics of a record: every field is carried over, and the run time
/// in whole seconds becomes milliseconds.
pub open spec fn project(rec: RecordView) -> InfoView {
    InfoView {
        pid: rec.pid,
        usage_bits: rec.cpu_bits,
        name: rec.name,
        rss: rec.memory,
        runtime_ms: rec.run_time as int * MILLIS_PER_SECOND as int,
        vsz: rec.virtual_memory,
    }
}

impl ProcessInfo {
    /// Projects a process record into its metrics.
    pub fn from_process(process: &ProcessRecord) -> (r: ProcessInfo)
        requires
            runtime_fits(process@),
        ensures
            r@ == project(process@),
    {
        ProcessInfo {
            pid: process.pid,
            usage_bits: process.cpu_bits,
            name: process.name.clone(),
            rss: process.memory,
            runtime_ms: process.run_time * MILLIS_PER_SECOND,
            vsz: process.virtual_memory,
        }
    }
}

} // verus!
