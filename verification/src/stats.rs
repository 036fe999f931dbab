//! System statistics: disks with their mounts, network totals and when
//! memory figures are read again.
use vstd::prelude::*;

use crate::mounts::{Device, DeviceView, Devices};
use crate::text::{chars_of, eq_str, string_empty, string_of};

verus! {

/// A disk and its use.
#[derive(Debug, Clone)]
pub struct Disk {
    pub name: String,
    pub io_read: usize,
    pub io_write: usize,
    pub total: usize,
    pub used: usize,
    pub free: usize,
    pub kind: String,
    pub device: Option<Device>,
}

/// Reading the statistics of the system.
#[derive(Debug, Clone)]
pub struct Stats;

/// The shortest time between two readings of the memory figures, in
/// milliseconds.
pub const MIN_DURATION_CHECK_MS: u64 = 50;

impl Stats {
    /// A disk as the system reports it: its name, or its file system's
    /// name when it has none; its space, of which the used part is what is
    /// not available; its input and output; and its mount, looked up by
    /// its name.
    pub fn disk_entry(
        name: &str,
        file_system: &str,
        total_space: u64,
        available_space: u64,
        read_bytes: u64,
        written_bytes: u64,
        kind: &str,
        mounts: &Devices,
    ) -> (r: Disk)
        requires
            available_space <= total_space,
        ensures
            r.name@ == if name@.len() > 0 {
                name@
            } else {
                file_system@
            },
            r.total == total_space as usize,
            r.used == (total_space - available_space) as usize,
            r.free == available_space as usize,
            r.io_read == read_bytes as usize,
            r.io_write == written_bytes as usize,
            r.kind@ == kind@,
            match r.device {
                Some(d) => mounts@.contains_key(r.name@) && d@ == mounts@[r.name@],
                None => !mounts@.contains_key(r.name@),
            },
    {
        let n = chars_of(name);
        let disk_name = if n.len() > 0 {
            string_of(&n)
        } else {
            let f = chars_of(file_system);
            string_of(&f)
        };
        let device = mounts.get(disk_name.as_str());
        let k = chars_of(kind);
        Disk {
            name: disk_name,
            total: total_space as usize,
            used: (total_space - available_space) as usize,
            free: available_space as usize,
            io_read: read_bytes as usize,
            kind: string_of(&k),
            io_write: written_bytes as usize,
            device,
        }
    }

    /// The bytes received and sent over all interfaces but the loopback
    /// `lo`, given each interface's name, received and sent bytes.
    pub fn network_totals(interfaces: &Vec<(String, u64, u64)>) -> (r: (u64, u64))
        requires
            network_sum(interfaces@, true) <= u64::MAX,
            network_sum(interfaces@, false) <= u64::MAX,
        ensures
            r.0 == network_sum(interfaces@, true),
            r.1 == network_sum(interfaces@, false),
    {
        let mut rx: u64 = 0;
        let mut tx: u64 = 0;
        let mut i: usize = 0;
        while i < interfaces.len()
            invariant
                0 <= i <= interfaces@.len(),
                network_sum(interfaces@, true) <= u64::MAX,
                network_sum(interfaces@, false) <= u64::MAX,
                rx == network_sum(interfaces@.take(i as int), true),
                tx == network_sum(interfaces@.take(i as int), false),
            decreases interfaces@.len() - i,
        {
            assert(interfaces@.take(i + 1).drop_last() =~= interfaces@.take(i as int));
            proof {
                lemma_network_sum_prefix(interfaces@, i + 1, true);
                lemma_network_sum_prefix(interfaces@, i + 1, false);
            }
            let e = &interfaces[i];
            let nm = chars_of(e.0.as_str());
            if !eq_str(&nm, "lo") {
                rx = rx + e.1;
                tx = tx + e.2;
            }
            i = i + 1;
        }
        assert(interfaces@.take(interfaces@.len() as int) =~= interfaces@);
        (rx, tx)
    }

    /// Whether the memory figures are to be read again: when at least the
    /// given time, but never less than 50 ms, has passed since they were
    /// last read (both in milliseconds).
    pub fn memory_due(elapsed_ms: u64, duration_ms: u64) -> (r: bool)
        ensures
            r == (elapsed_ms >= if duration_ms > 50 {
                duration_ms
            } else {
                50
            }),
    {
        let effective = if duration_ms > MIN_DURATION_CHECK_MS {
            duration_ms
        } else {
            MIN_DURATION_CHECK_MS
        };
        elapsed_ms >= effective
    }
}

/// The received (`rx`) or sent bytes of the interfaces other than `lo`.
pub open spec fn network_sum(v: Seq<(String, u64, u64)>, rx: bool) -> nat
    decreases v.len(),
{
    if v.len() == 0 {
        0
    } else {
        let e = v.last();
        network_sum(v.drop_last(), rx) + if e.0@ == "lo"@ {
            0nat
        } else if rx {
            e.1 as nat
        } else {
            e.2 as nat
        }
    }
}

proof fn lemma_network_sum_prefix(v: Seq<(String, u64, u64)>, k: int, rx: bool)
    requires
        0 <= k <= v.len(),
    ensures
        network_sum(v.take(k), rx) <= network_sum(v, rx),
    decreases v.len(),
{
    if k < v.len() {
        assert(v.take(k) =~= v.drop_last().take(k));
        lemma_network_sum_prefix(v.drop_last(), k, rx);
    } else {
        assert(v.take(k) =~= v);
    }
}

} // verus!
