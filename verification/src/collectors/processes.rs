//! The process list the process collector reports: CPU shares only for processes seen
//! in the previous sample, and processes in PID order.
use vstd::prelude::*;

use crate::model::{Float32, ProcessIdentity, ProcessInfo};

verus! {

/// What the system reports about one process.
#[derive(Clone, Debug, PartialEq)]
pub struct ProcessReading {
    pub identity: ProcessIdentity,
    pub name: String,
    pub command: String,
    /// The CPU share since the system last measured it, in percent.
    pub cpu_usage: Float32,
    pub memory_bytes: u64,
    pub user: Option<String>,
    pub status: Option<String>,
}

/// Whether `id` is among `seen`.
pub open spec fn was_seen(seen: Seq<ProcessIdentity>, id: ProcessIdentity) -> bool {
    seen.contains(id)
}

/// The process a reading describes: the CPU share is only known for a process seen in
/// the previous sample, since the first measurement has nothing to compare against.
pub open spec fn process_of(r: ProcessReading, seen: Seq<ProcessIdentity>) -> ProcessInfo {
    ProcessInfo {
        identity: r.identity,
        name: r.name,
        command: r.command,
        cpu_percent: if was_seen(seen, r.identity) {
            Some(r.cpu_usage)
        } else {
            None
        },
        memory_bytes: Some(r.memory_bytes),
        user: r.user,
        status: r.status,
        traffic: None,
    }
}

/// The first position at or after `i` before which a process with this PID may stand.
pub open spec fn pid_slot(s: Seq<ProcessInfo>, pid: u32, i: int) -> int
    decreases s.len() - i,
{
    if i < 0 || i >= s.len() {
        s.len() as int
    } else if pid <= s[i].identity.pid {
        i
    } else {
        pid_slot(s, pid, i + 1)
    }
}

/// `s` in PID order, stably: inserted from the last to the first, each before the
/// first process whose PID is not smaller.
pub open spec fn by_pid(s: Seq<ProcessInfo>) -> Seq<ProcessInfo>
    decreases s.len(),
{
    if s.len() == 0 {
        Seq::empty()
    } else {
        let rest = by_pid(s.drop_first());
        rest.insert(pid_slot(rest, s[0].identity.pid, 0), s[0])
    }
}

/// The processes of the readings, before ordering.
pub open spec fn processes_of(readings: Seq<ProcessReading>, seen: Seq<ProcessIdentity>) -> Seq<ProcessInfo> {
    readings.map_values(|r: ProcessReading| process_of(r, seen))
}

fn copy_text(s: &Option<String>) -> (r: Option<String>)
    ensures
        r == *s,
{
    match s {
        Some(t) => Some(t.clone()),
        None => None,
    }
}

fn insertion_slot(sorted: &Vec<ProcessInfo>, pid: u32) -> (r: usize)
    ensures
        r == pid_slot(sorted@, pid, 0),
        r <= sorted@.len(),
{
    let mut i: usize = 0;
    while i < sorted.len()
        invariant
            i <= sorted@.len(),
            pid_slot(sorted@, pid, 0) == pid_slot(sorted@, pid, i as int),
        decreases sorted@.len() - i,
    {
        if pid <= sorted[i].identity.pid {
            return i;
        }
        i = i + 1;
    }
    i
}

/// Sort processes by PID, keeping the order of equal PIDs.
pub fn sort_by_pid(processes: Vec<ProcessInfo>) -> (r: Vec<ProcessInfo>)
    ensures
        r@ == by_pid(processes@),
{
    let ghost original = processes@;
    let mut rest = processes;
    let mut sorted: Vec<ProcessInfo> = Vec::new();
    assert(original.skip(original.len() as int) =~= Seq::<ProcessInfo>::empty());
    while rest.len() > 0
        invariant
            rest@.len() <= original.len(),
            rest@ == original.take(rest@.len() as int),
            sorted@ == by_pid(original.skip(rest@.len() as int)),
        decreases rest@.len(),
    {
        let ghost before = rest@;
        let x = rest.pop().unwrap();
        let m = rest.len();
        proof {
            assert(before == rest@.push(x));
            assert(original.skip(m as int).drop_first() =~= original.skip(m + 1));
            assert(original.skip(m as int)[0] == original[m as int]);
            assert(x == original[m as int]);
            assert(rest@ =~= original.take(m as int));
        }
        let p = insertion_slot(&sorted, x.identity.pid);
        sorted.insert(p, x);
    }
    assert(original.skip(0) =~= original);
    sorted
}

/// Keeps the identities of the processes of the previous sample.
#[derive(Clone, Debug, Default)]
pub struct ProcessTracker {
    pub seen: Vec<ProcessIdentity>,
}

impl ProcessTracker {
    pub fn new() -> (r: Self)
        ensures
            r.seen@.len() == 0,
    {
        ProcessTracker { seen: Vec::new() }
    }

    fn seen_before(&self, id: ProcessIdentity) -> (r: bool)
        ensures
            r == was_seen(self.seen@, id),
    {
        let mut i: usize = 0;
        while i < self.seen.len()
            invariant
                i <= self.seen@.len(),
                forall|k: int| 0 <= k < i ==> self.seen@[k] != id,
            decreases self.seen@.len() - i,
        {
            if self.seen[i] == id {
                assert(self.seen@[i as int] == id);
                return true;
            }
            i = i + 1;
        }
        false
    }

    /// The processes of a sample in PID order; the sample's identities become the ones
    /// seen before.
    pub fn observe(&mut self, readings: &Vec<ProcessReading>) -> (r: Vec<ProcessInfo>)
        ensures
            r@ == by_pid(processes_of(readings@, old(self).seen@)),
            final(self).seen@ == readings@.map_values(|x: ProcessReading| x.identity),
    {
        let mut processes: Vec<ProcessInfo> = Vec::new();
        let mut current: Vec<ProcessIdentity> = Vec::new();
        let mut i: usize = 0;
        while i < readings.len()
            invariant
                i <= readings@.len(),
                processes@ == processes_of(readings@, self.seen@).take(i as int),
                current@ == readings@.map_values(|x: ProcessReading| x.identity).take(i as int),
            decreases readings@.len() - i,
        {
            let reading = &readings[i];
            let known = self.seen_before(reading.identity);
            let cpu_percent = if known {
                Some(reading.cpu_usage)
            } else {
                None
            };
            processes.push(
                ProcessInfo {
                    identity: reading.identity,
                    name: reading.name.clone(),
                    command: reading.command.clone(),
                    cpu_percent,
                    memory_bytes: Some(reading.memory_bytes),
                    user: copy_text(&reading.user),
                    status: copy_text(&reading.status),
                    traffic: None,
                },
            );
            current.push(reading.identity);
            i = i + 1;
            assert(processes@ =~= processes_of(readings@, self.seen@).take(i as int));
            assert(current@ =~= readings@.map_values(|x: ProcessReading| x.identity).take(i as int));
        }
        assert(processes_of(readings@, self.seen@).take(i as int) =~= processes_of(readings@, self.seen@));
        assert(readings@.map_values(|x: ProcessReading| x.identity).take(i as int) =~= readings@.map_values(
            |x: ProcessReading| x.identity,
        ));
        self.seen = current;
        sort_by_pid(processes)
    }
}

proof fn lemma_pid_slot_bound(s: Seq<ProcessInfo>, pid: u32, i: int)
    requires
        0 <= i <= s.len(),
    ensures
        i <= pid_slot(s, pid, i) <= s.len(),
    decreases s.len() - i,
{
    if i < s.len() && !(pid <= s[i].identity.pid) {
        lemma_pid_slot_bound(s, pid, i + 1);
    }
}

proof fn lemma_by_pid_keeps_processes(s: Seq<ProcessInfo>)
    ensures
        by_pid(s).len() == s.len(),
        by_pid(s).to_multiset() == s.to_multiset(),
    decreases s.len(),
{
    broadcast use vstd::seq_lib::group_to_multiset_ensures;

    if s.len() > 0 {
        let d = s.drop_first();
        lemma_by_pid_keeps_processes(d);
        let rest = by_pid(d);
        let k = pid_slot(rest, s[0].identity.pid, 0);
        lemma_pid_slot_bound(rest, s[0].identity.pid, 0);
        let r = rest.insert(k, s[0]);
        assert(r.remove(k) =~= rest);
        assert(s.remove(0) =~= d);
        assert(r[k] == s[0]);
        assert(r.to_multiset() =~= rest.to_multiset().insert(s[0]));
        assert(s.to_multiset() =~= d.to_multiset().insert(s[0]));
    }
}

/// Whether `x` is the process reading `r` describes, given the identities seen in the
/// previous sample: the reading's identity, name, command, memory, user and status, no
/// traffic, and a CPU share exactly when the identity was seen before, then the
/// reading's share.
pub open spec fn describes(x: ProcessInfo, r: ProcessReading, seen: Seq<ProcessIdentity>) -> bool {
    &&& x.identity == r.identity
    &&& x.name == r.name
    &&& x.command == r.command
    &&& x.memory_bytes == Some(r.memory_bytes)
    &&& x.user == r.user
    &&& x.status == r.status
    &&& x.traffic is None
    &&& x.cpu_percent == (if seen.contains(r.identity) {
        Some(r.cpu_usage)
    } else {
        None
    })
}

/// What `observe` reports, over any sample and any previous sample: as many processes
/// as readings, each one describing a reading, every reading described by one of them,
/// in PID order.
pub proof fn lemma_observe_reports_each_reading(readings: Seq<ProcessReading>, seen: Seq<ProcessIdentity>)
    ensures
        by_pid(processes_of(readings, seen)).len() == readings.len(),
        forall|k: int|
            #![trigger by_pid(processes_of(readings, seen))[k]]
            0 <= k < readings.len() ==> exists|j: int|
                0 <= j < readings.len() && describes(
                    by_pid(processes_of(readings, seen))[k],
                    #[trigger] readings[j],
                    seen,
                ),
        forall|j: int|
            #![trigger readings[j]]
            0 <= j < readings.len() ==> exists|k: int|
                0 <= k < readings.len() && describes(
                    #[trigger] by_pid(processes_of(readings, seen))[k],
                    readings[j],
                    seen,
                ),
        forall|k: int, m: int|
            0 <= k < m < readings.len() ==> (#[trigger] by_pid(processes_of(readings, seen))[k]).identity.pid
                <= (#[trigger] by_pid(processes_of(readings, seen))[m]).identity.pid,
{
    broadcast use vstd::seq_lib::group_to_multiset_ensures;

    let p = processes_of(readings, seen);
    let b = by_pid(p);
    lemma_by_pid_keeps_processes(p);
    lemma_by_pid_sorted(p);
    assert forall|k: int| #![trigger b[k]] 0 <= k < readings.len() implies exists|j: int|
        0 <= j < readings.len() && describes(b[k], #[trigger] readings[j], seen) by {
        assert(b.contains(b[k]));
        assert(b.to_multiset().count(b[k]) > 0);
        assert(p.contains(b[k]));
        let j = choose|j: int| 0 <= j < p.len() && p[j] == b[k];
        assert(p[j] == process_of(readings[j], seen));
        assert(describes(b[k], readings[j], seen));
    }
    assert forall|j: int| #![trigger readings[j]] 0 <= j < readings.len() implies exists|k: int|
        0 <= k < readings.len() && describes(#[trigger] b[k], readings[j], seen) by {
        assert(p[j] == process_of(readings[j], seen));
        assert(p.contains(p[j]));
        assert(p.to_multiset().count(p[j]) > 0);
        assert(b.contains(p[j]));
        let k = choose|k: int| 0 <= k < b.len() && b[k] == p[j];
        assert(describes(b[k], readings[j], seen));
    }
}

proof fn lemma_pid_slot_facts(s: Seq<ProcessInfo>, pid: u32, i: int)
    requires
        0 <= i <= s.len(),
    ensures
        forall|j: int| i <= j < pid_slot(s, pid, i) ==> (#[trigger] s[j]).identity.pid < pid,
        pid_slot(s, pid, i) < s.len() ==> pid <= s[pid_slot(s, pid, i)].identity.pid,
    decreases s.len() - i,
{
    if i < s.len() && !(pid <= s[i].identity.pid) {
        lemma_pid_slot_facts(s, pid, i + 1);
    }
}

proof fn lemma_by_pid_sorted(s: Seq<ProcessInfo>)
    ensures
        forall|k: int, m: int|
            0 <= k < m < by_pid(s).len() ==> (#[trigger] by_pid(s)[k]).identity.pid <= (#[trigger] by_pid(s)[m]).identity.pid,
    decreases s.len(),
{
    if s.len() > 0 {
        let d = s.drop_first();
        lemma_by_pid_sorted(d);
        lemma_by_pid_keeps_processes(d);
        let rest = by_pid(d);
        let x = s[0];
        let slot = pid_slot(rest, x.identity.pid, 0);
        lemma_pid_slot_bound(rest, x.identity.pid, 0);
        lemma_pid_slot_facts(rest, x.identity.pid, 0);
        let r = rest.insert(slot, x);
        assert forall|k: int, m: int| 0 <= k < m < r.len() implies (#[trigger] r[k]).identity.pid
            <= (#[trigger] r[m]).identity.pid by {
            if m < slot {
                assert(r[k] == rest[k] && r[m] == rest[m]);
            } else if m == slot {
                assert(r[k] == rest[k]);
            } else if k > slot {
                assert(r[k] == rest[k - 1] && r[m] == rest[m - 1]);
            } else if k == slot {
                assert(r[m] == rest[m - 1]);
                assert(rest[slot].identity.pid <= rest[m - 1].identity.pid || m - 1 == slot);
            } else {
                assert(r[k] == rest[k] && r[m] == rest[m - 1]);
            }
        }
    }
}

} // verus!
