//! The language servers that are running, and what is reported of them.
use vstd::prelude::*;
use std::collections::HashMap;

verus! {

/// Nanoseconds in a second.
pub const NANOS_PER_SEC: u64 = 1_000_000_000;

/// The running language servers: process numbers, each with the time of its start in nanoseconds
/// on the clock of this program.
pub struct ProcessRegistry {
    processes: HashMap<u32, u64>,
}

/// What is reported of one language server.
pub struct LspProcessStatus {
    pub pid: u32,
    pub uptime_secs: u64,
    pub memory_bytes: u64,
}

/// What is reported of a bridge.
pub struct LspStatusResponse {
    pub program: String,
    pub processes: Vec<LspProcessStatus>,
}

/// The whole seconds from `started` to `now`, none where `now` is earlier.
pub open spec fn whole_seconds(started: u64, now: u64) -> u64 {
    if now < started {
        0
    } else {
        ((now - started) / NANOS_PER_SEC as int) as u64
    }
}

/// The report on one process: how long it has been running, and its memory where that is known.
pub open spec fn status_of(pid: u32, started: u64, now: u64, memory: Map<u32, u64>) -> LspProcessStatus {
    LspProcessStatus {
        pid,
        uptime_secs: whole_seconds(started, now),
        memory_bytes: if memory.contains_key(pid) {
            memory[pid]
        } else {
            0
        },
    }
}

/// Whether `reports` holds one report for each running process and no other.
pub open spec fn reports_on(
    reports: Seq<LspProcessStatus>,
    running: Map<u32, u64>,
    now: u64,
    memory: Map<u32, u64>,
) -> bool {
    &&& forall|i: int|
        0 <= i < reports.len() ==> running.contains_key((#[trigger] reports[i]).pid) && reports[i]
            == status_of(reports[i].pid, running[reports[i].pid], now, memory)
    &&& forall|pid: u32| #[trigger]
        running.contains_key(pid) ==> exists|i: int|
            0 <= i < reports.len() && (#[trigger] reports[i]).pid == pid
    &&& forall|i: int, j: int|
        0 <= i < j < reports.len() ==> (#[trigger] reports[i]).pid != (#[trigger] reports[j]).pid
}

impl View for ProcessRegistry {
    type V = Map<u32, u64>;

    closed spec fn view(&self) -> Map<u32, u64> {
        self.processes@
    }
}

impl ProcessRegistry {
    /// A registry without processes.
    pub fn new() -> (registry: Self)
        ensures
            registry@ == Map::<u32, u64>::empty(),
    {
        ProcessRegistry { processes: HashMap::new() }
    }

    /// Enters a process that has just started.
    pub fn enter(&mut self, pid: u32, started_at: u64)
        ensures
            final(self)@ == old(self)@.insert(pid, started_at),
    {
        broadcast use vstd::std_specs::hash::group_hash_axioms;

        self.processes.insert(pid, started_at);
    }

    /// Takes out a process whose bridge has ended.
    pub fn leave(&mut self, pid: u32)
        ensures
            final(self)@ == old(self)@.remove(pid),
    {
        broadcast use vstd::std_specs::hash::group_hash_axioms;

        self.processes.remove(&pid);
    }

    /// One report for each running process, in no particular order. `memory` says how much memory
    /// each process of the machine uses.
    pub fn get_lsp_status(
        &self,
        program: &str,
        memory: &HashMap<u32, u64>,
        now: u64,
    ) -> (response: LspStatusResponse)
        ensures
            response.program@ == program@,
            reports_on(response.processes@, self@, now, memory@),
    {
        broadcast use vstd::std_specs::hash::group_hash_axioms;

        let mut reports: Vec<LspProcessStatus> = Vec::new();
        for pid in it: self.processes.keys()
            invariant
                it.seq().unref().to_set() == self.processes@.dom(),
                it.seq().no_duplicates(),
                forall|pid: u32| #[trigger]
                    self@.contains_key(pid) ==> exists|i: int|
                        0 <= i < it.seq().len() && *(#[trigger] it.seq()[i]) == pid,
                reports@.len() == it.index(),
                forall|i: int|
                    #![trigger reports@[i]]
                    #![trigger it.seq()[i]]
                    0 <= i < reports@.len() ==> reports@[i].pid == *it.seq()[i],
                forall|i: int|
                    0 <= i < reports@.len() ==> self@.contains_key((#[trigger] reports@[i]).pid)
                        && reports@[i] == status_of(
                        reports@[i].pid,
                        self@[reports@[i].pid],
                        now,
                        memory@,
                    ),
        {
            proof {
                assert(it.seq().unref()[it.index() as int] == *pid);
                assert(it.seq().unref().to_set().contains(*pid));
            }
            let started: u64 = match self.processes.get(pid) {
                Some(s) => *s,
                None => 0,
            };
            let memory_bytes: u64 = match memory.get(pid) {
                Some(m) => *m,
                None => 0,
            };
            let uptime_secs: u64 = if now < started {
                0
            } else {
                (now - started) / NANOS_PER_SEC
            };
            reports.push(LspProcessStatus { pid: *pid, uptime_secs, memory_bytes });
        }
        LspStatusResponse { program: String::from_str(program), processes: reports }
    }
}

/// A bridge that ends leaves the registry as it found it, where its process number was free.
pub proof fn law_registry_is_restored(running: Map<u32, u64>, pid: u32, started_at: u64)
    requires
        !running.contains_key(pid),
    ensures
        running.insert(pid, started_at).remove(pid) == running,
{
    assert(running.insert(pid, started_at).remove(pid) =~= running);
}

} // verus!
