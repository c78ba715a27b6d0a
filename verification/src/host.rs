//! Host metrics reader: a thin trusted boundary around the system
//! information provider, and the verified conversions behind it — bytes to
//! mebibytes for memory, bytes to gibibytes for disks, and the guarantee
//! that a disk's used space never exceeds its total.
use vstd::arithmetic::div_mod::lemma_div_is_ordered;
use vstd::prelude::*;

verus! {

#[verifier::external_type_specification]
#[verifier::external_body]
pub struct ExSystem(sysinfo::System);

#[verifier::external_type_specification]
#[verifier::external_body]
pub struct ExNetworks(sysinfo::Networks);

#[verifier::external_type_specification]
#[verifier::external_body]
pub struct ExNetworkData(sysinfo::NetworkData);

/// Relies on `sysinfo::System::refresh_cpu`: resamples CPU usage in place;
/// nothing about the handle is promised.
pub assume_specification[ sysinfo::System::refresh_cpu ](s: &mut sysinfo::System)
;

/// Relies on `sysinfo::System::refresh_memory`: resamples RAM and swap in
/// place; nothing about the handle is promised.
pub assume_specification[ sysinfo::System::refresh_memory ](s: &mut sysinfo::System)
;

/// Relies on `sysinfo::System::used_memory`: used RAM in bytes, whatever
/// the machine reports.
pub assume_specification[ sysinfo::System::used_memory ](s: &sysinfo::System) -> u64
;

/// Relies on `sysinfo::System::total_memory`: total RAM in bytes.
pub assume_specification[ sysinfo::System::total_memory ](s: &sysinfo::System) -> u64
;

/// Relies on `sysinfo::System::used_swap`: used swap in bytes.
pub assume_specification[ sysinfo::System::used_swap ](s: &sysinfo::System) -> u64
;

/// Relies on `sysinfo::System::total_swap`: total swap in bytes.
pub assume_specification[ sysinfo::System::total_swap ](s: &sysinfo::System) -> u64
;

/// Relies on `sysinfo::System::uptime`: seconds since boot, whatever the
/// machine reports.
pub assume_specification[ sysinfo::System::uptime ]() -> u64
;

/// Relies on `sysinfo::Networks::refresh`: updates the counters of the
/// known interfaces in place.
pub assume_specification[ sysinfo::Networks::refresh ](n: &mut sysinfo::Networks)
;

/// One disk as the provider reports it, in raw bytes.
pub struct DiskRaw {
    pub name: String,
    pub mount_point: String,
    pub total_bytes: u64,
    pub available_bytes: u64,
}

/// One disk row of the snapshot, in whole gibibytes.
pub struct DiskInfo {
    pub name: String,
    pub mount_point: String,
    pub total_gb: u64,
    pub used_gb: u64,
}

/// One network-interface row of the snapshot: cumulative receive and
/// transmit counters since interface reset.
pub struct NetworkInfo {
    pub name: String,
    pub rx_bytes: u64,
    pub tx_bytes: u64,
}

/// Memory readings converted to whole mebibytes.
pub struct MemStats {
    pub ram_used_mb: u64,
    pub ram_total_mb: u64,
    pub swap_used_mb: u64,
    pub swap_total_mb: u64,
}

/// Relies on `sysinfo::Disks::new_with_refreshed_list` and the `Disk`
/// accessors `name`, `mount_point`, `total_space` and `available_space`:
/// a fresh enumeration of the mounted disks, converted to plain rows;
/// nothing about the values is promised.
#[verifier::external_body]
fn refreshed_disk_list() -> Vec<DiskRaw> {
    let disks = sysinfo::Disks::new_with_refreshed_list();
    disks
        .iter()
        .map(
            |d| DiskRaw {
                name: d.name().to_string_lossy().into_owned(),
                mount_point: d.mount_point().to_string_lossy().into_owned(),
                total_bytes: d.total_space(),
                available_bytes: d.available_space(),
            },
        )
        .collect()
}

/// Relies on iterating `sysinfo::Networks` and on
/// `NetworkData::total_received` / `total_transmitted`: one row per
/// interface with its cumulative counters; nothing about the values is
/// promised.
#[verifier::external_body]
fn network_rows(nets: &sysinfo::Networks) -> Vec<NetworkInfo> {
    nets.iter()
        .map(
            |(name, data)| NetworkInfo {
                name: name.clone(),
                rx_bytes: data.total_received(),
                tx_bytes: data.total_transmitted(),
            },
        )
        .collect()
}

/// Whole mebibytes in a byte count, truncating.
pub open spec fn mb_of_bytes(b: u64) -> u64 {
    b / 1024 / 1024
}

/// Whole gibibytes in a byte count, truncating.
pub open spec fn gb_of_bytes(b: u64) -> u64 {
    b / 1024 / 1024 / 1024
}

/// The bytes in use on a disk: total minus available, and zero in the
/// degenerate case of a provider reporting more available than total.
pub open spec fn used_bytes(total: u64, available: u64) -> u64 {
    if available <= total {
        (total - available) as u64
    } else {
        0
    }
}

/// Converts the four raw memory readings to mebibytes.
pub fn memory_mb(ram_used: u64, ram_total: u64, swap_used: u64, swap_total: u64) -> (r: MemStats)
    ensures
        r.ram_used_mb == mb_of_bytes(ram_used),
        r.ram_total_mb == mb_of_bytes(ram_total),
        r.swap_used_mb == mb_of_bytes(swap_used),
        r.swap_total_mb == mb_of_bytes(swap_total),
{
    MemStats {
        ram_used_mb: ram_used / 1024 / 1024,
        ram_total_mb: ram_total / 1024 / 1024,
        swap_used_mb: swap_used / 1024 / 1024,
        swap_total_mb: swap_total / 1024 / 1024,
    }
}

/// How one disk row relates to the raw reading it was built from.
pub open spec fn disk_row(d: DiskRaw, r: DiskInfo) -> bool {
    &&& r.name@ == d.name@
    &&& r.mount_point@ == d.mount_point@
    &&& r.total_gb == gb_of_bytes(d.total_bytes)
    &&& r.used_gb == gb_of_bytes(used_bytes(d.total_bytes, d.available_bytes))
}

/// On every disk row built from a raw reading, the used capacity does not
/// exceed the total, and both are non-negative whole gibibytes.
pub proof fn lemma_disk_row_used_bounded(d: DiskRaw, r: DiskInfo)
    requires
        disk_row(d, r),
    ensures
        r.used_gb <= r.total_gb,
{
    let used = used_bytes(d.total_bytes, d.available_bytes);
    lemma_div_is_ordered(used as int, d.total_bytes as int, 1024);
    lemma_div_is_ordered(used as int / 1024, d.total_bytes as int / 1024, 1024);
    lemma_div_is_ordered(used as int / 1024 / 1024, d.total_bytes as int / 1024 / 1024, 1024);
}

/// Builds one disk row. Used capacity is total minus available, floored to
/// whole gibibytes, and never exceeds the total.
pub fn disk_info(d: DiskRaw) -> (r: DiskInfo)
    ensures
        disk_row(d, r),
        r.used_gb <= r.total_gb,
{
    let used = if d.available_bytes <= d.total_bytes {
        d.total_bytes - d.available_bytes
    } else {
        0
    };
    proof {
        lemma_div_is_ordered(used as int, d.total_bytes as int, 1024);
        lemma_div_is_ordered(used as int / 1024, d.total_bytes as int / 1024, 1024);
        lemma_div_is_ordered(used as int / 1024 / 1024, d.total_bytes as int / 1024 / 1024, 1024);
    }
    DiskInfo {
        name: d.name,
        mount_point: d.mount_point,
        total_gb: d.total_bytes / 1024 / 1024 / 1024,
        used_gb: used / 1024 / 1024 / 1024,
    }
}

/// Builds the disk rows for one snapshot; on every row, used does not
/// exceed total.
pub fn disks_from_raw(raw: Vec<DiskRaw>) -> (r: Vec<DiskInfo>)
    ensures
        r@.len() == raw@.len(),
        forall|i: int| 0 <= i < raw@.len() ==> disk_row(raw@[i], #[trigger] r@[i]),
        forall|i: int| 0 <= i < r@.len() ==> (#[trigger] r@[i]).used_gb <= r@[i].total_gb,
{
    let ghost ds = raw@;
    let mut remaining = raw;
    let mut rows: Vec<DiskInfo> = Vec::new();
    while remaining.len() > 0
        invariant
            rows@.len() + remaining@.len() == ds.len(),
            remaining@ == ds.skip(rows@.len() as int),
            forall|i: int| 0 <= i < rows@.len() ==> disk_row(ds[i], #[trigger] rows@[i]),
            forall|i: int| 0 <= i < rows@.len() ==> (#[trigger] rows@[i]).used_gb <= rows@[i].total_gb,
        decreases remaining@.len(),
    {
        let ghost k = rows@.len() as int;
        let d = remaining.remove(0);
        proof {
            assert(d == ds.skip(k)[0]);
            assert(d == ds[k]);
            assert(remaining@ =~= ds.skip(k + 1));
        }
        let row = disk_info(d);
        rows.push(row);
    }
    rows
}

/// Everything the host metrics reader yields from one lock-guarded pass:
/// memory in mebibytes, uptime, and the disk rows.
pub struct HostStats {
    pub mem: MemStats,
    pub uptime_secs: u64,
    pub disks: Vec<DiskInfo>,
}

/// One refresh-then-read pass over the shared metrics handle: resamples
/// only CPU and memory (the cheap subsystems), reads the memory counters
/// and the uptime, and enumerates the disks fresh. The raw readings are
/// machine state, so only the conversions are promised: on every disk row,
/// used does not exceed total.
pub fn collect_host_stats(sys: &mut sysinfo::System) -> (r: HostStats)
    ensures
        forall|i: int|
            0 <= i < r.disks@.len() ==> (#[trigger] r.disks@[i]).used_gb <= r.disks@[i].total_gb,
{
    sys.refresh_cpu();
    sys.refresh_memory();
    let mem = memory_mb(sys.used_memory(), sys.total_memory(), sys.used_swap(), sys.total_swap());
    let uptime_secs = sysinfo::System::uptime();
    let raw = refreshed_disk_list();
    let disks = disks_from_raw(raw);
    HostStats { mem, uptime_secs, disks }
}

/// Refreshes the shared interface counters and reads them out as rows.
/// The values are machine state; nothing about them is promised.
pub fn collect_networks(nets: &mut sysinfo::Networks) -> Vec<NetworkInfo> {
    nets.refresh();
    network_rows(nets)
}

} // verus!
