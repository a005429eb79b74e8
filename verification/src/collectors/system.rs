//! The whole-number bookkeeping of the system collector: memory figures, disk usage and
//! the per-interface byte counters behind the network totals.
use vstd::prelude::*;

use crate::state::{is_system_mount, is_system_mount_spec, no_memory, DiskStats, MemoryStats};

verus! {

/// The memory figures for a nonzero total; an available amount of zero is replaced by
/// what is not used.
pub open spec fn memory_of(total: u64, used: u64, available: u64, free: u64, swap_used: u64, swap_total: u64) -> MemoryStats {
    MemoryStats {
        total: Some(total),
        used: Some(used),
        available: Some(
            if available == 0 {
                if total >= used {
                    (total - used) as u64
                } else {
                    0
                }
            } else {
                available
            },
        ),
        free: Some(free),
        swap_used: Some(swap_used),
        swap_total: Some(swap_total),
    }
}

/// Memory figures from the system's counters; a zero total means nothing is known.
pub fn memory_stats(total: u64, used: u64, available: u64, free: u64, swap_used: u64, swap_total: u64) -> (r: MemoryStats)
    ensures
        r == (if total == 0 {
            no_memory()
        } else {
            memory_of(total, used, available, free, swap_used, swap_total)
        }),
{
    if total == 0 {
        return MemoryStats::default();
    }
    let available = if available == 0 {
        total.saturating_sub(used)
    } else {
        available
    };
    MemoryStats {
        total: Some(total),
        used: Some(used),
        available: Some(available),
        free: Some(free),
        swap_used: Some(swap_used),
        swap_total: Some(swap_total),
    }
}

/// A disk's figures from its mount point, size and available space.
pub fn disk_stats(mount: String, total: u64, free: u64) -> (r: DiskStats)
    ensures
        r.mount@ == mount@,
        r.total == total,
        r.free == free,
        r.used == (if total >= free {
            (total - free) as u64
        } else {
            0
        }),
        r.is_system == is_system_mount_spec(mount@),
{
    let is_system = is_system_mount(mount.as_str());
    DiskStats { is_system, mount, total, used: total.saturating_sub(free), free }
}

/// The byte counters of one interface at the last sample, and the counter values its
/// totals are counted from.
#[derive(Clone, Copy, Debug, PartialEq, Eq, Structural)]
pub struct InterfaceCounters {
    pub received: u64,
    pub transmitted: u64,
    pub baseline_received: u64,
    pub baseline_transmitted: u64,
}

/// One sample of an interface's counters.
#[derive(Clone, Copy, Debug, PartialEq, Eq, Structural)]
pub struct CounterStep {
    /// The bookkeeping to keep for the next sample.
    pub counters: InterfaceCounters,
    /// Bytes received since the baseline.
    pub rx_total: u64,
    /// Bytes sent since the baseline.
    pub tx_total: u64,
    /// The received counter went back, so its baseline restarted.
    pub rx_reset: bool,
    /// The sent counter went back, so its baseline restarted.
    pub tx_reset: bool,
}

/// The counters a new interface starts from: its current values.
pub open spec fn fresh_counters(received: u64, transmitted: u64) -> InterfaceCounters {
    InterfaceCounters {
        received,
        transmitted,
        baseline_received: received,
        baseline_transmitted: transmitted,
    }
}

/// The result of a sample: a counter that went back (the interface was reset) restarts
/// its total from the new value; totals count from the baselines.
pub open spec fn counter_step(previous: Option<InterfaceCounters>, received: u64, transmitted: u64) -> CounterStep {
    let base = match previous {
        Some(p) => p,
        None => fresh_counters(received, transmitted),
    };
    let rx_reset = received < base.received;
    let tx_reset = transmitted < base.transmitted;
    let rx_base = if rx_reset {
        received
    } else {
        base.baseline_received
    };
    let tx_base = if tx_reset {
        transmitted
    } else {
        base.baseline_transmitted
    };
    CounterStep {
        counters: InterfaceCounters {
            received,
            transmitted,
            baseline_received: rx_base,
            baseline_transmitted: tx_base,
        },
        rx_total: if received >= rx_base {
            (received - rx_base) as u64
        } else {
            0
        },
        tx_total: if transmitted >= tx_base {
            (transmitted - tx_base) as u64
        } else {
            0
        },
        rx_reset,
        tx_reset,
    }
}

/// Take a new sample of an interface's counters; a new interface starts counting from
/// now.
pub fn step_counters(previous: Option<InterfaceCounters>, received: u64, transmitted: u64) -> (r: CounterStep)
    ensures
        r == counter_step(previous, received, transmitted),
{
    let base = match previous {
        Some(p) => p,
        None => InterfaceCounters {
            received,
            transmitted,
            baseline_received: received,
            baseline_transmitted: transmitted,
        },
    };
    let rx_reset = received < base.received;
    let tx_reset = transmitted < base.transmitted;
    let baseline_received = if rx_reset {
        received
    } else {
        base.baseline_received
    };
    let baseline_transmitted = if tx_reset {
        transmitted
    } else {
        base.baseline_transmitted
    };
    CounterStep {
        counters: InterfaceCounters { received, transmitted, baseline_received, baseline_transmitted },
        rx_total: received.saturating_sub(baseline_received),
        tx_total: transmitted.saturating_sub(baseline_transmitted),
        rx_reset,
        tx_reset,
    }
}

} // verus!
