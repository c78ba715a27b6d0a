//! Snapshot aggregation: merging the independently fallible collections
//! into one response object, with every failed source contributing its
//! default instead of aborting the snapshot.
use crate::host::{DiskInfo, MemStats, NetworkInfo};
use crate::inventory::{ContainerInfo, ImageInfo};
use crate::procs::ProcessInfo;
use vstd::prelude::*;

verus! {

/// What a fallible collection contributes: its rows, or nothing.
pub open spec fn or_empty<T>(o: Option<Vec<T>>) -> Seq<T> {
    match o {
        Some(v) => v@,
        None => Seq::empty(),
    }
}

fn unwrap_or_empty<T>(o: Option<Vec<T>>) -> (r: Vec<T>)
    ensures
        r@ == or_empty(o),
{
    match o {
        Some(v) => v,
        None => Vec::new(),
    }
}

/// One complete snapshot of host and container state, constructed fresh
/// per request. Every field is always present; a failed source leaves an
/// empty list or a zero, never a missing field.
pub struct SystemSnapshot {
    pub ram_used_mb: u64,
    pub ram_total_mb: u64,
    pub swap_used_mb: u64,
    pub swap_total_mb: u64,
    pub uptime_secs: u64,
    pub internet_latency_ms: u64,
    pub networks: Vec<NetworkInfo>,
    pub processes: Vec<ProcessInfo>,
    pub disks: Vec<DiskInfo>,
    pub containers: Vec<ContainerInfo>,
    pub images: Vec<ImageInfo>,
}

/// Merges the per-source results into one snapshot. Each fallible source
/// is passed as what it yielded, or `None` where it failed; a failure
/// contributes an empty list and never touches another field. In
/// particular, when the container runtime was unreachable for both
/// queries, `containers` and `images` are empty and every other field
/// still carries its collected value.
pub fn assemble(
    mem: MemStats,
    uptime_secs: u64,
    internet_latency_ms: u64,
    networks: Option<Vec<NetworkInfo>>,
    processes: Option<Vec<ProcessInfo>>,
    disks: Option<Vec<DiskInfo>>,
    containers: Option<Vec<ContainerInfo>>,
    images: Option<Vec<ImageInfo>>,
) -> (s: SystemSnapshot)
    ensures
        s.ram_used_mb == mem.ram_used_mb,
        s.ram_total_mb == mem.ram_total_mb,
        s.swap_used_mb == mem.swap_used_mb,
        s.swap_total_mb == mem.swap_total_mb,
        s.uptime_secs == uptime_secs,
        s.internet_latency_ms == internet_latency_ms,
        s.networks@ == or_empty(networks),
        s.processes@ == or_empty(processes),
        s.disks@ == or_empty(disks),
        s.containers@ == or_empty(containers),
        s.images@ == or_empty(images),
        containers is None ==> s.containers@.len() == 0,
        images is None ==> s.images@.len() == 0,
{
    SystemSnapshot {
        ram_used_mb: mem.ram_used_mb,
        ram_total_mb: mem.ram_total_mb,
        swap_used_mb: mem.swap_used_mb,
        swap_total_mb: mem.swap_total_mb,
        uptime_secs,
        internet_latency_ms,
        networks: unwrap_or_empty(networks),
        processes: unwrap_or_empty(processes),
        disks: unwrap_or_empty(disks),
        containers: unwrap_or_empty(containers),
        images: unwrap_or_empty(images),
    }
}

} // verus!
