use hostwatch::host::{disk_info, disks_from_raw, memory_mb, DiskInfo, DiskRaw, NetworkInfo};
use hostwatch::logs::{log_query, render_logs};
use hostwatch::probe::latency_from_probes;
use hostwatch::procs::ProcessInfo;
use hostwatch::snapshot::assemble;

const GB: u64 = 1024 * 1024 * 1024;

fn disk(name: &str, total_bytes: u64, available_bytes: u64) -> DiskRaw {
    DiskRaw {
        name: name.to_string(),
        mount_point: format!("/mnt/{}", name),
        total_bytes,
        available_bytes,
    }
}

#[test]
fn disk_scenario_two_disks() {
    let rows = disks_from_raw(vec![disk("a", 500 * GB, 200 * GB), disk("b", 100 * GB, 100 * GB)]);
    assert_eq!(rows.len(), 2);
    assert_eq!(rows[0].total_gb, 500);
    assert_eq!(rows[0].used_gb, 300);
    assert_eq!(rows[1].total_gb, 100);
    assert_eq!(rows[1].used_gb, 0);
}

#[test]
fn disk_used_never_exceeds_total() {
    let rows = disks_from_raw(vec![
        disk("a", 10 * GB + 7, 3 * GB),
        disk("b", 0, 0),
        disk("odd", 5 * GB, 6 * GB),
    ]);
    for r in &rows {
        assert!(r.used_gb <= r.total_gb);
    }
    assert_eq!(rows[2].used_gb, 0);
}

#[test]
fn disk_floors_to_whole_gigabytes() {
    let row = disk_info(disk("a", 2 * GB - 1, 0));
    assert_eq!(row.total_gb, 1);
    assert_eq!(row.used_gb, 1);
    assert_eq!(row.name, "a");
    assert_eq!(row.mount_point, "/mnt/a");
}

#[test]
fn memory_converts_to_mebibytes() {
    let m = memory_mb(3 * 1024 * 1024, 8 * 1024 * 1024 * 1024, 1024 * 1024 - 1, 0);
    assert_eq!(m.ram_used_mb, 3);
    assert_eq!(m.ram_total_mb, 8192);
    assert_eq!(m.swap_used_mb, 0);
    assert_eq!(m.swap_total_mb, 0);
}

#[test]
fn latency_prefers_primary_then_fallback_then_zero() {
    assert_eq!(latency_from_probes(Some(12), None), 12);
    assert_eq!(latency_from_probes(Some(12), Some(40)), 12);
    assert_eq!(latency_from_probes(None, Some(40)), 40);
    assert_eq!(latency_from_probes(None, None), 0);
}

#[test]
fn log_window_is_thirty_minutes_back() {
    let q = log_query(1_700_000_000);
    assert_eq!(q.since, 1_700_000_000 - 1800);
    assert_eq!(q.tail, 100);
    assert!(q.stdout);
    assert!(q.stderr);
}

#[test]
fn logs_concatenate_in_arrival_order() {
    let chunks = vec!["line one\n".to_string(), "line two\n".to_string()];
    assert_eq!(render_logs("web", &chunks), "line one\nline two\n");
}

#[test]
fn empty_logs_yield_placeholder_naming_the_container() {
    let out = render_logs("web", &Vec::new());
    assert!(!out.is_empty());
    assert!(out.contains("web"));
    assert_eq!(out, "No logs for web in last 30m.");
}

#[test]
fn snapshot_carries_every_source() {
    let mem = memory_mb(1024 * 1024, 2 * 1024 * 1024, 0, 0);
    let nets = vec![NetworkInfo { name: "eth0".to_string(), rx_bytes: 10, tx_bytes: 20 }];
    let procs = vec![ProcessInfo { name: "a".to_string(), ram_mb: 11 }];
    let disks: Vec<DiskInfo> = disks_from_raw(vec![disk("a", 500 * GB, 200 * GB)]);
    let s = assemble(mem, 3600, 25, Some(nets), Some(procs), Some(disks), Some(Vec::new()), None);
    assert_eq!(s.ram_used_mb, 1);
    assert_eq!(s.ram_total_mb, 2);
    assert_eq!(s.uptime_secs, 3600);
    assert_eq!(s.internet_latency_ms, 25);
    assert_eq!(s.networks.len(), 1);
    assert_eq!(s.processes.len(), 1);
    assert_eq!(s.disks.len(), 1);
    assert_eq!(s.containers.len(), 0);
    assert_eq!(s.images.len(), 0);
}

#[test]
fn runtime_failure_leaves_other_fields_populated() {
    let mem = memory_mb(6 * 1024 * 1024, 16 * 1024 * 1024, 0, 0);
    let nets = vec![NetworkInfo { name: "lo".to_string(), rx_bytes: 1, tx_bytes: 1 }];
    let procs = vec![ProcessInfo { name: "init".to_string(), ram_mb: 12 }];
    let disks = disks_from_raw(vec![disk("root", 100 * GB, 40 * GB)]);
    // The container runtime was unreachable: both inventory queries failed.
    let s = assemble(mem, 77, 9, Some(nets), Some(procs), Some(disks), None, None);
    assert_eq!(s.containers.len(), 0);
    assert_eq!(s.images.len(), 0);
    assert_eq!(s.ram_used_mb, 6);
    assert_eq!(s.uptime_secs, 77);
    assert_eq!(s.internet_latency_ms, 9);
    assert_eq!(s.networks.len(), 1);
    assert_eq!(s.processes.len(), 1);
    assert_eq!(s.disks.len(), 1);
}
