//! The snapshot provider: a process table keyed by process id, as it stood
//! at the last refresh. `ProcessTable` is an in-memory provider.

use vstd::prelude::*;
use crate::metrics::{ProcessRecord, RecordView};

verus! {

pub trait SnapshotProvider {
    /// The records of the last refresh, by process id.
    spec fn table(&self) -> Map<i32, RecordView>;

    /// The record of `pid`, if the last refresh saw that process.
    fn lookup(&self, pid: i32) -> (r: Option<ProcessRecord>)
        ensures
            match r {
                Some(rec) => self.table().contains_key(pid) && rec@ == self.table()[pid],
                None => !self.table().contains_key(pid),
            },
    ;

    /// Every process id of the last refresh, once each, in no set order.
    fn process_ids(&self) -> (r: Vec<i32>)
        ensures
            r@.no_duplicates(),
            r@.to_set() == self.table().dom(),
    ;
}

/// A process table held in memory: records with distinct ids.
pub struct ProcessTable {
    records: Vec<ProcessRecord>,
}

impl ProcessTable {
    #[verifier::type_invariant]
    spec fn wf(&self) -> bool {
        forall|i: int, j: int|
            0 <= i < j < self.records@.len() ==> self.records@[i].pid != self.records@[j].pid
    }

    /// The table as a map from id to record.
    pub closed spec fn entries(&self) -> Map<i32, RecordView> {
        Map::new(
            |pid: i32| exists|i: int| 0 <= i < self.records@.len() && self.records@[i].pid == pid,
            |pid: i32|
                {
                    let i = choose|i: int|
                        0 <= i < self.records@.len() && self.records@[i].pid == pid;
                    self.records@[i]@
                },
        )
    }

    proof fn lemma_entry(&self, i: int)
        requires
            self.wf(),
            0 <= i < self.records@.len(),
        ensures
            self.entries().contains_key(self.records@[i].pid),
            self.entries()[self.records@[i].pid] == self.records@[i]@,
    {
        let pid = self.records@[i].pid;
        let j = choose|j: int| 0 <= j < self.records@.len() && self.records@[j].pid == pid;
        assert(j == i);
    }

    /// An empty table.
    pub fn new() -> (r: ProcessTable)
        ensures
            r.entries() == Map::<i32, RecordView>::empty(),
    {
        let r = ProcessTable { records: Vec::new() };
        assert(r.entries() =~= Map::<i32, RecordView>::empty());
        r
    }

    /// Number of processes in the table.
    pub fn len(&self) -> (r: usize)
        ensures
            r == self.entries().len(),
    {
        proof {
            use_type_invariant(self);
            self.lemma_dom_len();
        }
        self.records.len()
    }

    /// The ids of the records, in order.
    spec fn ids(&self) -> Seq<i32> {
        self.records@.map_values(|r: ProcessRecord| r.pid)
    }

    proof fn lemma_ids(&self)
        requires
            self.wf(),
        ensures
            self.ids().no_duplicates(),
            self.entries().dom() == self.ids().to_set(),
    {
        let ids = self.ids();
        assert forall|pid: i32| #[trigger]
            self.entries().dom().contains(pid) == ids.to_set().contains(pid) by {
            if self.entries().dom().contains(pid) {
                let j = choose|j: int| 0 <= j < self.records@.len() && self.records@[j].pid == pid;
                assert(ids[j] == pid);
            }
            if ids.contains(pid) {
                let j = choose|j: int| 0 <= j < ids.len() && ids[j] == pid;
                assert(self.records@[j].pid == pid);
            }
        }
        assert(self.entries().dom() =~= ids.to_set());
    }

    proof fn lemma_dom_len(&self)
        requires
            self.wf(),
        ensures
            self.entries().dom().finite(),
            self.entries().dom().len() == self.records@.len(),
    {
        self.lemma_ids();
        self.ids().unique_seq_to_set();
    }

    /// Position of `pid` in the table, if present.
    fn position(&self, pid: i32) -> (r: Option<usize>)
        ensures
            match r {
                Some(i) => i < self.records@.len() && self.records@[i as int].pid == pid,
                None => !self.entries().contains_key(pid),
            },
    {
        proof {
            use_type_invariant(self);
        }
        let mut i: usize = 0;
        while i < self.records.len()
            invariant
                i <= self.records@.len(),
                forall|j: int| 0 <= j < i ==> self.records@[j].pid != pid,
            decreases self.records@.len() - i,
        {
            if self.records[i].pid == pid {
                return Some(i);
            }
            i = i + 1;
        }
        None
    }

    /// Records `rec` under its id, replacing any record with that id.
    pub fn insert(&mut self, rec: ProcessRecord)
        ensures
            final(self).entries() == old(self).entries().insert(rec.pid, rec@),
    {
        proof {
            use_type_invariant(&*self);
        }
        let pid = rec.pid;
        let ghost v = rec@;
        let ghost before = self.entries();
        let found = self.position(pid);
        let mut taken = ProcessTable::new();
        std::mem::swap(self, &mut taken);
        let ghost prev = taken;
        let ProcessTable { mut records } = taken;
        let ghost n = records@.len();
        match found {
            Some(i) => {
                records.set(i, rec);
            },
            None => {
                records.push(rec);
            },
        }
        proof {
            assert forall|a: int, b: int|
                0 <= a < b < records@.len() implies records@[a].pid != records@[b].pid by {
                if found is None && b == n {
                    assert(prev.entries().contains_key(records@[a].pid));
                }
            }
        }
        *self = ProcessTable { records };
        proof {
            let idx: int = match found {
                Some(i) => i as int,
                None => n as int,
            };
            assert(self.records@[idx].pid == pid);
            self.lemma_entry(idx);
            assert forall|k: i32| #[trigger]
                self.entries().contains_key(k) implies self.entries()[k] == before.insert(
                pid,
                v,
            )[k] by {
                let j = choose|j: int| 0 <= j < self.records@.len() && self.records@[j].pid == k;
                self.lemma_entry(j);
                if j != idx {
                    assert(prev.records@[j] == self.records@[j]);
                    prev.lemma_entry(j);
                }
            }
            assert forall|k: i32| #[trigger]
                before.insert(pid, v).contains_key(k) implies self.entries().contains_key(k) by {
                if k != pid {
                    let j = choose|j: int|
                        0 <= j < prev.records@.len() && prev.records@[j].pid == k;
                    assert(self.records@[j] == prev.records@[j]);
                }
            }
            assert(self.entries() =~= before.insert(pid, v));
        }
    }
}

impl SnapshotProvider for ProcessTable {
    open spec fn table(&self) -> Map<i32, RecordView> {
        self.entries()
    }

    fn lookup(&self, pid: i32) -> (r: Option<ProcessRecord>) {
        proof {
            use_type_invariant(self);
        }
        match self.position(pid) {
            Some(i) => {
                proof {
                    self.lemma_entry(i as int);
                }
                Some(self.records[i].duplicate())
            },
            None => None,
        }
    }

    fn process_ids(&self) -> (r: Vec<i32>) {
        proof {
            use_type_invariant(self);
        }
        let ghost ids = self.ids();
        let mut out: Vec<i32> = Vec::new();
        let mut i: usize = 0;
        while i < self.records.len()
            invariant
                i <= self.records@.len(),
                ids == self.ids(),
                out@ == ids.take(i as int),
            decreases self.records@.len() - i,
        {
            out.push(self.records[i].pid);
            i = i + 1;
            assert(out@ =~= ids.take(i as int));
        }
        proof {
            assert(out@ =~= ids);
            self.lemma_ids();
        }
        out
    }
}

} // verus!
