//! The system state the collectors feed, one typed update at a time.
use vstd::prelude::*;

use std::time::Duration;

use crate::model::{Float64, ProcessInfo, TrafficRate};
use crate::text::{is_prefix_chars, starts_with, str_eq};

verus! {

/// A collector that feeds the state.
#[derive(Clone, Copy, Debug, PartialEq, Eq, Hash, PartialOrd, Ord, Structural)]
pub enum Source {
    System,
    Platform,
    Traffic,
}

#[derive(Clone, Copy, Debug, PartialEq)]
pub struct CpuStats {
    pub usage: Option<Float64>,
    pub user: Option<Float64>,
    pub system: Option<Float64>,
    pub cores: Option<usize>,
    pub load: Option<[Float64; 3]>,
    pub temperature: Option<Float64>,
}

/// CPU statistics with nothing known.
pub open spec fn no_cpu() -> CpuStats {
    CpuStats { usage: None, user: None, system: None, cores: None, load: None, temperature: None }
}

impl Default for CpuStats {
    fn default() -> (r: Self)
        ensures
            r == no_cpu(),
    {
        CpuStats { usage: None, user: None, system: None, cores: None, load: None, temperature: None }
    }
}

#[derive(Clone, Copy, Debug, PartialEq, Eq, Structural)]
pub struct MemoryStats {
    pub total: Option<u64>,
    pub used: Option<u64>,
    pub available: Option<u64>,
    pub free: Option<u64>,
    pub swap_used: Option<u64>,
    pub swap_total: Option<u64>,
}

pub open spec fn no_memory() -> MemoryStats {
    MemoryStats {
        total: None,
        used: None,
        available: None,
        free: None,
        swap_used: None,
        swap_total: None,
    }
}

impl Default for MemoryStats {
    fn default() -> (r: Self)
        ensures
            r == no_memory(),
    {
        MemoryStats {
            total: None,
            used: None,
            available: None,
            free: None,
            swap_used: None,
            swap_total: None,
        }
    }
}

#[derive(Clone, Debug, PartialEq)]
pub struct DiskStats {
    pub mount: String,
    pub total: u64,
    pub used: u64,
    pub free: u64,
    pub is_system: bool,
}

/// A macOS system volume: under `/System/Volumes/` or the swap directory.
pub open spec fn is_system_mount_spec(mount: Seq<char>) -> bool {
    is_prefix_chars("/System/Volumes/"@, mount) || is_prefix_chars("/private/var/vm"@, mount)
}

pub fn is_system_mount(mount: &str) -> (r: bool)
    ensures
        r == is_system_mount_spec(mount@),
{
    starts_with(mount, "/System/Volumes/") || starts_with(mount, "/private/var/vm")
}

#[derive(Clone, Debug, PartialEq)]
pub struct InterfaceStats {
    pub name: String,
    /// Bytes received per second.
    pub rx_rate: Option<Float64>,
    /// Bytes sent per second.
    pub tx_rate: Option<Float64>,
    pub rx_total: u64,
    pub tx_total: u64,
    pub peak_rx: Float64,
    pub peak_tx: Float64,
}

#[derive(Clone, Debug, PartialEq)]
pub struct Battery {
    /// The charge in percent, 0 to 100.
    pub percent: u8,
    pub charging: Option<bool>,
    pub power_source: Option<String>,
}

#[derive(Clone, Copy, Debug, PartialEq, Eq, Structural)]
pub struct ProcessTraffic {
    pub pid: u32,
    pub rate: TrafficRate,
}

#[derive(Clone, Debug, PartialEq)]
pub struct SystemSample {
    pub cpu_usage: Option<Float64>,
    pub cores: Option<usize>,
    pub load: Option<[Float64; 3]>,
    pub memory: MemoryStats,
    pub disks: Vec<DiskStats>,
    pub interfaces: Vec<InterfaceStats>,
    pub processes: Vec<ProcessInfo>,
    pub uptime: Option<Duration>,
}

impl Default for SystemSample {
    fn default() -> (r: Self)
        ensures
            r.cpu_usage is None,
            r.cores is None,
            r.load is None,
            r.memory == no_memory(),
            r.disks@.len() == 0,
            r.interfaces@.len() == 0,
            r.processes@.len() == 0,
            r.uptime is None,
    {
        SystemSample {
            cpu_usage: None,
            cores: None,
            load: None,
            memory: MemoryStats::default(),
            disks: Vec::new(),
            interfaces: Vec::new(),
            processes: Vec::new(),
            uptime: None,
        }
    }
}

#[derive(Clone, Debug, PartialEq)]
pub struct PlatformSample {
    pub cpu_user: Option<Float64>,
    pub cpu_system: Option<Float64>,
    pub battery: Option<Battery>,
    pub temperature: Option<Float64>,
}

impl Default for PlatformSample {
    fn default() -> (r: Self)
        ensures
            r.cpu_user is None && r.cpu_system is None && r.battery is None && r.temperature is None,
    {
        PlatformSample { cpu_user: None, cpu_system: None, battery: None, temperature: None }
    }
}

#[derive(Clone, Debug, PartialEq)]
pub enum CollectorUpdate {
    System(SystemSample),
    Platform(PlatformSample),
    Traffic(Vec<ProcessTraffic>),
    Failed { source: Source, message: String },
    Stopped(Source),
}

/// The rate of the last row for `pid`: later rows replace earlier ones.
pub open spec fn traffic_for(rows: Seq<ProcessTraffic>, pid: u32) -> Option<TrafficRate>
    decreases rows.len(),
{
    if rows.len() == 0 {
        None
    } else if rows.last().pid == pid {
        Some(rows.last().rate)
    } else {
        traffic_for(rows.drop_last(), pid)
    }
}

/// The processes with each one's traffic taken from `rows`.
pub open spec fn attached(processes: Seq<ProcessInfo>, rows: Seq<ProcessTraffic>) -> Seq<ProcessInfo> {
    Seq::new(
        processes.len(),
        |i: int| ProcessInfo { traffic: traffic_for(rows, processes[i].identity.pid), ..processes[i] },
    )
}

/// The message a stopped worker leaves.
pub open spec fn stopped_message() -> Seq<char> {
    "data stream stopped"@
}

#[derive(Clone, Debug, PartialEq)]
pub struct SystemState {
    pub cpu: CpuStats,
    pub memory: MemoryStats,
    pub disks: Vec<DiskStats>,
    pub interfaces: Vec<InterfaceStats>,
    pub processes: Vec<ProcessInfo>,
    pub battery: Option<Battery>,
    pub uptime: Option<Duration>,
    pub system_issue: Option<String>,
    pub platform_issue: Option<String>,
    pub traffic_issue: Option<String>,
    pub traffic: Vec<ProcessTraffic>,
}

impl SystemState {
    /// The open issue of a source.
    pub open spec fn issue_spec(&self, source: Source) -> Option<Seq<char>> {
        let i = match source {
            Source::System => self.system_issue,
            Source::Platform => self.platform_issue,
            Source::Traffic => self.traffic_issue,
        };
        match i {
            Some(m) => Some(m@),
            None => None,
        }
    }

    /// The latest per-process traffic rows.
    pub open spec fn traffic_rows(&self) -> Seq<ProcessTraffic> {
        self.traffic@
    }

    pub fn new() -> (r: Self)
        ensures
            r.cpu == no_cpu(),
            r.memory == no_memory(),
            r.disks@.len() == 0,
            r.interfaces@.len() == 0,
            r.processes@.len() == 0,
            r.battery is None,
            r.uptime is None,
            r.issue_spec(Source::System) is None,
            r.issue_spec(Source::Platform) is None,
            r.issue_spec(Source::Traffic) is None,
            r.traffic_rows().len() == 0,
    {
        SystemState {
            cpu: CpuStats::default(),
            memory: MemoryStats::default(),
            disks: Vec::new(),
            interfaces: Vec::new(),
            processes: Vec::new(),
            battery: None,
            uptime: None,
            system_issue: None,
            platform_issue: None,
            traffic_issue: None,
            traffic: Vec::new(),
        }
    }

    pub fn has_failures(&self) -> (r: bool)
        ensures
            r == (self.issue_spec(Source::System) is Some || self.issue_spec(Source::Platform) is Some
                || self.issue_spec(Source::Traffic) is Some),
    {
        self.system_issue.is_some() || self.platform_issue.is_some() || self.traffic_issue.is_some()
    }

    pub fn issue(&self, source: Source) -> (r: Option<&str>)
        ensures
            match r {
                Some(m) => self.issue_spec(source) == Some(m@),
                None => self.issue_spec(source) is None,
            },
    {
        let i = match source {
            Source::System => &self.system_issue,
            Source::Platform => &self.platform_issue,
            Source::Traffic => &self.traffic_issue,
        };
        match i {
            Some(m) => Some(m.as_str()),
            None => None,
        }
    }

    fn set_issue(&mut self, source: Source, message: Option<String>)
        ensures
            forall|s: Source| #[trigger] final(self).issue_spec(s) == (if s == source {
                match message {
                    Some(m) => Some(m@),
                    None => None,
                }
            } else {
                old(self).issue_spec(s)
            }),
            final(self).cpu == old(self).cpu,
            final(self).memory == old(self).memory,
            final(self).disks == old(self).disks,
            final(self).interfaces == old(self).interfaces,
            final(self).processes == old(self).processes,
            final(self).battery == old(self).battery,
            final(self).uptime == old(self).uptime,
            final(self).traffic_rows() == old(self).traffic_rows(),
    {
        match source {
            Source::System => self.system_issue = message,
            Source::Platform => self.platform_issue = message,
            Source::Traffic => self.traffic_issue = message,
        }
    }

    fn rate_of(&self, pid: u32) -> (r: Option<TrafficRate>)
        ensures
            r == traffic_for(self.traffic_rows(), pid),
    {
        let mut i: usize = self.traffic.len();
        assert(self.traffic@.take(i as int) == self.traffic@);
        while i > 0
            invariant
                i <= self.traffic@.len(),
                traffic_for(self.traffic@, pid) == traffic_for(self.traffic@.take(i as int), pid),
            decreases i,
        {
            assert(self.traffic@.take(i as int).drop_last() == self.traffic@.take(i - 1));
            if self.traffic[i - 1].pid == pid {
                return Some(self.traffic[i - 1].rate);
            }
            i = i - 1;
        }
        None
    }

    fn attach_traffic(&mut self)
        ensures
            final(self).processes@ == attached(old(self).processes@, old(self).traffic_rows()),
            final(self).cpu == old(self).cpu,
            final(self).memory == old(self).memory,
            final(self).disks == old(self).disks,
            final(self).interfaces == old(self).interfaces,
            final(self).battery == old(self).battery,
            final(self).uptime == old(self).uptime,
            forall|s: Source| #[trigger] final(self).issue_spec(s) == old(self).issue_spec(s),
            final(self).traffic_rows() == old(self).traffic_rows(),
    {
        let mut updated: Vec<ProcessInfo> = Vec::new();
        let mut i: usize = 0;
        while i < self.processes.len()
            invariant
                i <= self.processes@.len(),
                updated@ == attached(self.processes@, self.traffic_rows()).take(i as int),
            decreases self.processes@.len() - i,
        {
            let mut p = self.processes[i].duplicate();
            p.traffic = self.rate_of(p.identity.pid);
            updated.push(p);
            assert(updated@ =~= attached(self.processes@, self.traffic_rows()).take(i + 1));
            i = i + 1;
        }
        assert(updated@ =~= attached(self.processes@, self.traffic_rows()));
        self.processes = updated;
    }

    fn clear(&mut self, source: Source)
        ensures
            source == Source::System ==> {
                &&& final(self).cpu == CpuStats {
                    usage: None,
                    cores: None,
                    load: None,
                    ..old(self).cpu
                }
                &&& final(self).memory == no_memory()
                &&& final(self).disks@.len() == 0
                &&& final(self).interfaces@.len() == 0
                &&& final(self).processes@.len() == 0
                &&& final(self).uptime is None
                &&& final(self).battery == old(self).battery
                &&& final(self).traffic_rows() == old(self).traffic_rows()
            },
            source == Source::Platform ==> {
                &&& final(self).cpu == CpuStats {
                    user: None,
                    system: None,
                    temperature: None,
                    ..old(self).cpu
                }
                &&& final(self).battery is None
                &&& final(self).memory == old(self).memory
                &&& final(self).disks == old(self).disks
                &&& final(self).interfaces == old(self).interfaces
                &&& final(self).processes == old(self).processes
                &&& final(self).uptime == old(self).uptime
                &&& final(self).traffic_rows() == old(self).traffic_rows()
            },
            source == Source::Traffic ==> {
                &&& final(self).traffic_rows().len() == 0
                &&& final(self).processes@ == attached(old(self).processes@, Seq::empty())
                &&& final(self).cpu == old(self).cpu
                &&& final(self).battery == old(self).battery
                &&& final(self).memory == old(self).memory
                &&& final(self).disks == old(self).disks
                &&& final(self).interfaces == old(self).interfaces
                &&& final(self).uptime == old(self).uptime
            },
            forall|s: Source| #[trigger] final(self).issue_spec(s) == old(self).issue_spec(s),
    {
        match source {
            Source::System => {
                self.cpu.usage = None;
                self.cpu.cores = None;
                self.cpu.load = None;
                self.memory = MemoryStats::default();
                self.disks = Vec::new();
                self.interfaces = Vec::new();
                self.processes = Vec::new();
                self.uptime = None;
            },
            Source::Platform => {
                self.cpu.user = None;
                self.cpu.system = None;
                self.cpu.temperature = None;
                self.battery = None;
            },
            Source::Traffic => {
                self.traffic = Vec::new();
                self.attach_traffic();
            },
        }
    }

    /// Merge one collector update.
    pub fn apply(&mut self, update: CollectorUpdate)
        ensures
            state_applied(*old(self), *final(self), update),
    {
        match update {
            CollectorUpdate::System(sample) => {
                self.cpu.usage = sample.cpu_usage;
                self.cpu.cores = sample.cores;
                self.cpu.load = sample.load;
                self.memory = sample.memory;
                self.disks = sample.disks;
                self.interfaces = sample.interfaces;
                self.processes = sample.processes;
                self.uptime = sample.uptime;
                self.attach_traffic();
                self.set_issue(Source::System, None);
            },
            CollectorUpdate::Platform(sample) => {
                self.cpu.user = sample.cpu_user;
                self.cpu.system = sample.cpu_system;
                self.cpu.temperature = sample.temperature;
                self.battery = sample.battery;
                self.set_issue(Source::Platform, None);
            },
            CollectorUpdate::Traffic(rows) => {
                self.traffic = rows;
                self.attach_traffic();
                self.set_issue(Source::Traffic, None);
            },
            CollectorUpdate::Failed { source, message } => {
                self.clear(source);
                self.set_issue(source, Some(message));
            },
            CollectorUpdate::Stopped(source) => {
                let message = String::from_str("data stream stopped");
                self.set_issue(source, Some(message));
            },
        }
    }

    /// The open issues, in source order.
    pub open spec fn issue_list(&self) -> Seq<(Source, Seq<char>)> {
        issue_entry(Source::System, self.issue_spec(Source::System)) + issue_entry(
            Source::Platform,
            self.issue_spec(Source::Platform),
        ) + issue_entry(Source::Traffic, self.issue_spec(Source::Traffic))
    }

    /// Every open issue with its source, in source order.
    pub fn issues(&self) -> (r: Vec<(Source, &str)>)
        ensures
            r@.len() == self.issue_list().len(),
            forall|i: int|
                0 <= i < r@.len() ==> (#[trigger] r@[i]).0 == self.issue_list()[i].0 && r@[i].1@
                    == self.issue_list()[i].1,
    {
        let mut r: Vec<(Source, &str)> = Vec::new();
        if let Some(m) = &self.system_issue {
            r.push((Source::System, m.as_str()));
        }
        if let Some(m) = &self.platform_issue {
            r.push((Source::Platform, m.as_str()));
        }
        if let Some(m) = &self.traffic_issue {
            r.push((Source::Traffic, m.as_str()));
        }
        r
    }

    /// The disk mounted at `/`, else the first disk that is not a system volume.
    pub fn primary_disk(&self) -> (r: Option<&DiskStats>)
        ensures
            match r {
                Some(d) => primary_disk_index(self.disks@) >= 0 && *d == self.disks@[primary_disk_index(
                    self.disks@,
                )],
                None => primary_disk_index(self.disks@) < 0,
            },
    {
        let mut i: usize = 0;
        while i < self.disks.len()
            invariant
                i <= self.disks@.len(),
                forall|k: int| 0 <= k < i ==> self.disks@[k].mount@ != "/"@,
            decreases self.disks@.len() - i,
        {
            if str_eq(self.disks[i].mount.as_str(), "/") {
                proof {
                    lemma_first_where_root(self.disks@, i as int);
                }
                return Some(&self.disks[i]);
            }
            i = i + 1;
        }
        proof {
            lemma_no_root(self.disks@);
        }
        let mut j: usize = 0;
        while j < self.disks.len()
            invariant
                j <= self.disks@.len(),
                forall|k: int| 0 <= k < self.disks@.len() ==> self.disks@[k].mount@ != "/"@,
                forall|k: int| 0 <= k < j ==> self.disks@[k].is_system,
            decreases self.disks@.len() - j,
        {
            if !self.disks[j].is_system {
                proof {
                    lemma_first_user_disk(self.disks@, j as int);
                }
                return Some(&self.disks[j]);
            }
            j = j + 1;
        }
        proof {
            lemma_no_user_disk(self.disks@);
        }
        None
    }

    /// The disks that are not system volumes, in order.
    pub fn visible_disks(&self) -> (r: Vec<&DiskStats>)
        ensures
            r@.len() == user_disks(self.disks@).len(),
            forall|i: int| 0 <= i < r@.len() ==> *r@[i] == user_disks(self.disks@)[i],
    {
        let mut result: Vec<&DiskStats> = Vec::new();
        let mut i: usize = 0;
        while i < self.disks.len()
            invariant
                i <= self.disks@.len(),
                result@.len() == user_disks(self.disks@.take(i as int)).len(),
                forall|k: int| 0 <= k < result@.len() ==> *result@[k] == user_disks(self.disks@.take(i as int))[k],
            decreases self.disks@.len() - i,
        {
            assert(self.disks@.take(i + 1).drop_last() == self.disks@.take(i as int));
            if !self.disks[i].is_system {
                result.push(&self.disks[i]);
            }
            i = i + 1;
        }
        assert(self.disks@.take(self.disks@.len() as int) == self.disks@);
        result
    }
}

impl Default for SystemState {
    fn default() -> (r: Self)
        ensures
            r.processes@.len() == 0,
            r.disks@.len() == 0,
            r.interfaces@.len() == 0,
            r.traffic_rows().len() == 0,
            r.issue_spec(Source::System) is None,
            r.issue_spec(Source::Platform) is None,
            r.issue_spec(Source::Traffic) is None,
    {
        SystemState::new()
    }
}

/// What merging one collector update does: a sample replaces only its own source's
/// fields and clears that source's issue; a failure clears the source's fields and
/// records the message; a stopped worker is recorded as an issue.
pub open spec fn state_applied(old: SystemState, new: SystemState, update: CollectorUpdate) -> bool {
    match update {
        CollectorUpdate::System(sample) => {
            &&& new.cpu == CpuStats {
                usage: sample.cpu_usage,
                cores: sample.cores,
                load: sample.load,
                ..old.cpu
            }
            &&& new.memory == sample.memory
            &&& new.disks == sample.disks
            &&& new.interfaces == sample.interfaces
            &&& new.processes@ == attached(sample.processes@, old.traffic_rows())
            &&& new.uptime == sample.uptime
            &&& new.battery == old.battery
            &&& new.traffic_rows() == old.traffic_rows()
            &&& forall|s: Source| #[trigger] new.issue_spec(s) == (if s == Source::System {
                None
            } else {
                old.issue_spec(s)
            })
        },
        CollectorUpdate::Platform(sample) => {
            &&& new.cpu == CpuStats {
                user: sample.cpu_user,
                system: sample.cpu_system,
                temperature: sample.temperature,
                ..old.cpu
            }
            &&& new.battery == sample.battery
            &&& new.memory == old.memory
            &&& new.disks == old.disks
            &&& new.interfaces == old.interfaces
            &&& new.processes == old.processes
            &&& new.uptime == old.uptime
            &&& new.traffic_rows() == old.traffic_rows()
            &&& forall|s: Source| #[trigger] new.issue_spec(s) == (if s == Source::Platform {
                None
            } else {
                old.issue_spec(s)
            })
        },
        CollectorUpdate::Traffic(rows) => {
            &&& new.traffic_rows() == rows@
            &&& new.processes@ == attached(old.processes@, rows@)
            &&& new.cpu == old.cpu
            &&& new.memory == old.memory
            &&& new.disks == old.disks
            &&& new.interfaces == old.interfaces
            &&& new.battery == old.battery
            &&& new.uptime == old.uptime
            &&& forall|s: Source| #[trigger] new.issue_spec(s) == (if s == Source::Traffic {
                None
            } else {
                old.issue_spec(s)
            })
        },
        CollectorUpdate::Failed { source, message } => {
            &&& forall|s: Source| #[trigger] new.issue_spec(s) == (if s == source {
                Some(message@)
            } else {
                old.issue_spec(s)
            })
            &&& source == Source::System ==> {
                &&& new.cpu == CpuStats {
                    usage: None,
                    cores: None,
                    load: None,
                    ..old.cpu
                }
                &&& new.memory == no_memory()
                &&& new.disks@.len() == 0
                &&& new.interfaces@.len() == 0
                &&& new.processes@.len() == 0
                &&& new.uptime is None
                &&& new.battery == old.battery
                &&& new.traffic_rows() == old.traffic_rows()
            }
            &&& source == Source::Platform ==> {
                &&& new.cpu == CpuStats {
                    user: None,
                    system: None,
                    temperature: None,
                    ..old.cpu
                }
                &&& new.battery is None
                &&& new.memory == old.memory
                &&& new.disks == old.disks
                &&& new.interfaces == old.interfaces
                &&& new.processes == old.processes
                &&& new.uptime == old.uptime
                &&& new.traffic_rows() == old.traffic_rows()
            }
            &&& source == Source::Traffic ==> {
                &&& new.traffic_rows().len() == 0
                &&& new.processes@ == attached(old.processes@, Seq::empty())
                &&& new.cpu == old.cpu
                &&& new.battery == old.battery
                &&& new.memory == old.memory
                &&& new.disks == old.disks
                &&& new.interfaces == old.interfaces
                &&& new.uptime == old.uptime
            }
        },
        CollectorUpdate::Stopped(source) => {
            &&& forall|s: Source| #[trigger] new.issue_spec(s) == (if s == source {
                Some(stopped_message())
            } else {
                old.issue_spec(s)
            })
            &&& new.cpu == old.cpu
            &&& new.memory == old.memory
            &&& new.disks == old.disks
            &&& new.interfaces == old.interfaces
            &&& new.processes == old.processes
            &&& new.battery == old.battery
            &&& new.uptime == old.uptime
            &&& new.traffic_rows() == old.traffic_rows()
        },
    }
}

/// One source's issue as a list of zero or one entries.
pub open spec fn issue_entry(source: Source, issue: Option<Seq<char>>) -> Seq<(Source, Seq<char>)> {
    match issue {
        Some(m) => seq![(source, m)],
        None => Seq::empty(),
    }
}

/// The disks that are not system volumes, in order.
pub open spec fn user_disks(disks: Seq<DiskStats>) -> Seq<DiskStats>
    decreases disks.len(),
{
    if disks.len() == 0 {
        Seq::empty()
    } else if disks.last().is_system {
        user_disks(disks.drop_last())
    } else {
        user_disks(disks.drop_last()).push(disks.last())
    }
}

/// The position of the primary disk: the first mounted at `/`, else the first user
/// disk, else -1.
pub open spec fn primary_disk_index(disks: Seq<DiskStats>) -> int {
    if exists|i: int| 0 <= i < disks.len() && #[trigger] disks[i].mount@ == "/"@ {
        choose|i: int|
            0 <= i < disks.len() && disks[i].mount@ == "/"@ && forall|k: int|
                0 <= k < i ==> #[trigger] disks[k].mount@ != "/"@
    } else if exists|i: int| 0 <= i < disks.len() && !(#[trigger] disks[i].is_system) {
        choose|i: int|
            0 <= i < disks.len() && !disks[i].is_system && forall|k: int|
                0 <= k < i ==> #[trigger] disks[k].is_system
    } else {
        -1
    }
}

proof fn lemma_first_where_root(disks: Seq<DiskStats>, i: int)
    requires
        0 <= i < disks.len(),
        disks[i].mount@ == "/"@,
        forall|k: int| 0 <= k < i ==> disks[k].mount@ != "/"@,
    ensures
        primary_disk_index(disks) == i,
{
    assert(disks[i].mount@ == "/"@);
    let j = choose|j: int|
        0 <= j < disks.len() && disks[j].mount@ == "/"@ && forall|k: int|
            0 <= k < j ==> #[trigger] disks[k].mount@ != "/"@;
    if j < i {
        assert(disks[j].mount@ != "/"@);
    }
    if j > i {
        assert(disks[i].mount@ != "/"@);
    }
}

proof fn lemma_no_root(disks: Seq<DiskStats>)
    requires
        forall|k: int| 0 <= k < disks.len() ==> disks[k].mount@ != "/"@,
    ensures
        !(exists|i: int| 0 <= i < disks.len() && #[trigger] disks[i].mount@ == "/"@),
{
}

proof fn lemma_first_user_disk(disks: Seq<DiskStats>, i: int)
    requires
        0 <= i < disks.len(),
        !disks[i].is_system,
        forall|k: int| 0 <= k < i ==> disks[k].is_system,
        forall|k: int| 0 <= k < disks.len() ==> disks[k].mount@ != "/"@,
    ensures
        primary_disk_index(disks) == i,
{
    assert(!disks[i].is_system);
    let j = choose|j: int|
        0 <= j < disks.len() && !disks[j].is_system && forall|k: int|
            0 <= k < j ==> #[trigger] disks[k].is_system;
    if j < i {
        assert(disks[j].is_system);
    }
    if j > i {
        assert(disks[i].is_system);
    }
}

proof fn lemma_no_user_disk(disks: Seq<DiskStats>)
    requires
        forall|k: int| 0 <= k < disks.len() ==> disks[k].is_system,
        forall|k: int| 0 <= k < disks.len() ==> disks[k].mount@ != "/"@,
    ensures
        primary_disk_index(disks) == -1,
{
}

} // verus!
