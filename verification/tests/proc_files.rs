use retro_homepage::cpuinfo::{resolve_cpu_counts, summarize_cpuinfo, CpuCounts};
use retro_homepage::meminfo::{get_ram_info, RamInfo};
use retro_homepage::proc_stat::{parse_cpu_ticks, tick_deltas, CpuTicks, TickDeltas};

fn ticks(v: [u64; 8]) -> CpuTicks {
    CpuTicks {
        user: v[0],
        nice: v[1],
        system: v[2],
        idle: v[3],
        iowait: v[4],
        irq: v[5],
        softirq: v[6],
        steal: v[7],
    }
}

#[test]
fn reads_aggregate_cpu_line() {
    let stat = "cpu  10 20 30 40 50 60 70 80 0 0\ncpu0 1 2 3 4 5 6 7 8 0 0\nintr 5\n";
    assert_eq!(parse_cpu_ticks(stat), Some(ticks([10, 20, 30, 40, 50, 60, 70, 80])));
    assert_eq!(parse_cpu_ticks("cpu 1 2 3 4 5 6 7 8"), Some(ticks([1, 2, 3, 4, 5, 6, 7, 8])));
    assert_eq!(
        parse_cpu_ticks("cpu 1 2 3 4 5 6 7 18446744073709551615\r\n"),
        Some(ticks([1, 2, 3, 4, 5, 6, 7, u64::MAX]))
    );
}

#[test]
fn rejects_other_first_lines() {
    assert_eq!(parse_cpu_ticks(""), None);
    assert_eq!(parse_cpu_ticks("\ncpu 1 2 3 4 5 6 7 8"), None);
    assert_eq!(parse_cpu_ticks("cpu0 1 2 3 4 5 6 7 8"), None);
    assert_eq!(parse_cpu_ticks("CPU 1 2 3 4 5 6 7 8"), None);
    assert_eq!(parse_cpu_ticks("cpu 1 2 3 4 5 6 7"), None);
    assert_eq!(parse_cpu_ticks("cpu 1 2 3 4 5 6 7 x"), None);
    assert_eq!(parse_cpu_ticks("cpu 1 2 3 4 5 6 7 18446744073709551616"), None);
    assert_eq!(parse_cpu_ticks("intr 1\ncpu 1 2 3 4 5 6 7 8"), None);
}

#[test]
fn deltas_between_samples() {
    let t1 = ticks([100, 0, 50, 800, 50, 0, 0, 0]);
    let t2 = ticks([160, 0, 70, 900, 70, 0, 0, 0]);
    assert_eq!(tick_deltas(&t1, &t2), TickDeltas { total: 200, idle: 120 });
    assert_eq!(tick_deltas(&t2, &t1), TickDeltas { total: 0, idle: 0 });
    assert_eq!(tick_deltas(&t1, &t1), TickDeltas { total: 0, idle: 0 });
    assert_eq!(t1.total(), Some(1000));
    assert_eq!(ticks([u64::MAX, 1, 0, 0, 0, 0, 0, 0]).total(), None);
}

const MEMINFO: &str = "MemTotal:       16384000 kB\nMemFree:         1024000 kB\nMemAvailable:    8192000 kB\nBuffers:          100 kB\n";

#[test]
fn memory_from_meminfo() {
    assert_eq!(
        get_ram_info(Some(MEMINFO)),
        RamInfo { total_mb: 16000, used_mb: 8000, available_mb: 8000 }
    );
}

#[test]
fn memory_falls_back_to_free_and_nominal_figures() {
    let no_avail = "MemTotal: 4096000 kB\nMemFree: 1024000 kB\n";
    assert_eq!(
        get_ram_info(Some(no_avail)),
        RamInfo { total_mb: 4000, used_mb: 3000, available_mb: 1000 }
    );
    let only_total = "MemTotal: 4096000 kB\n";
    assert_eq!(
        get_ram_info(Some(only_total)),
        RamInfo { total_mb: 4000, used_mb: 2976, available_mb: 1024 }
    );
    assert_eq!(
        get_ram_info(Some("MemFree: 1 kB\n")),
        RamInfo { total_mb: 2048, used_mb: 1024, available_mb: 1024 }
    );
    assert_eq!(get_ram_info(None), RamInfo { total_mb: 2048, used_mb: 1024, available_mb: 1024 });
}

#[test]
fn memory_used_saturates_and_last_line_wins() {
    let odd = "MemTotal: 1024 kB\nMemAvailable: 4096 kB\n";
    assert_eq!(get_ram_info(Some(odd)), RamInfo { total_mb: 1, used_mb: 0, available_mb: 4 });
    let repeated = "MemTotal: 2048 kB\nMemTotal: 3072 kB\nMemAvailable: 1024 kB\n";
    assert_eq!(get_ram_info(Some(repeated)), RamInfo { total_mb: 3, used_mb: 2, available_mb: 1 });
    let broken_last = "MemTotal: 2048 kB\nMemTotal: lots\nMemAvailable: 1024 kB\n";
    assert_eq!(
        get_ram_info(Some(broken_last)),
        RamInfo { total_mb: 2048, used_mb: 1024, available_mb: 1024 }
    );
}

const CPUINFO: &str = "processor\t: 0\nphysical id\t: 0\ncore id\t\t: 0\ncpu cores\t: 2\n\nprocessor\t: 1\nphysical id\t: 0\ncore id\t\t: 1\ncpu cores\t: 2\n\nprocessor\t: 2\nphysical id\t: 0\ncore id\t\t: 0\ncpu cores\t: 2\n\nprocessor\t: 3\nphysical id\t: 0\ncore id\t\t: 1\ncpu cores\t: 2\n";

#[test]
fn cpuinfo_counts_threads_and_distinct_cores() {
    assert_eq!(summarize_cpuinfo(CPUINFO), CpuCounts { threads: 4, physical_cores: 2 });
}

#[test]
fn cpuinfo_without_core_ids_uses_cpu_cores() {
    let text = "processor : 0\ncpu cores : 6\nprocessor : 1\ncpu cores : 4\nflags : fpu vme\n";
    assert_eq!(summarize_cpuinfo(text), CpuCounts { threads: 2, physical_cores: 6 });
    let arm = "processor\t: 0\nBogoMIPS\t: 38.40\nprocessor\t: 1\nBogoMIPS\t: 38.40\n";
    assert_eq!(summarize_cpuinfo(arm), CpuCounts { threads: 2, physical_cores: 0 });
    assert_eq!(summarize_cpuinfo(""), CpuCounts { threads: 0, physical_cores: 0 });
    assert_eq!(summarize_cpuinfo("processor 0\n"), CpuCounts { threads: 0, physical_cores: 0 });
}

#[test]
fn cpuinfo_ids_reset_per_processor() {
    let text = "physical id : 1\nprocessor : 0\ncore id : 3\nprocessor : 1\nphysical id : 1\ncore id : 3\n";
    assert_eq!(summarize_cpuinfo(text), CpuCounts { threads: 2, physical_cores: 1 });
    let bad_id = "processor : 0\nphysical id : x\ncore id : 0\n";
    assert_eq!(summarize_cpuinfo(bad_id), CpuCounts { threads: 1, physical_cores: 0 });
}

#[test]
fn resolved_counts_are_never_zero() {
    let none = CpuCounts { threads: 0, physical_cores: 0 };
    assert_eq!(resolve_cpu_counts(&none, 0), (8, 8));
    assert_eq!(resolve_cpu_counts(&none, 12), (12, 12));
    let threads_only = CpuCounts { threads: 4, physical_cores: 0 };
    assert_eq!(resolve_cpu_counts(&threads_only, 99), (4, 4));
    let both = CpuCounts { threads: 8, physical_cores: 4 };
    assert_eq!(resolve_cpu_counts(&both, 0), (4, 8));
}

#[test]
fn monotone_counters_keep_idle_within_total() {
    let t1 = ticks([5, 1, 2, 30, 4, 0, 1, 0]);
    let t2 = ticks([9, 1, 8, 95, 4, 2, 1, 3]);
    let d = tick_deltas(&t1, &t2);
    assert_eq!(d, TickDeltas { total: 80, idle: 65 });
    assert!(d.idle <= d.total);
}

#[test]
fn crlf_and_blank_lines_in_proc_files() {
    let crlf = "MemTotal: 2048 kB\r\n\r\nMemAvailable: 1024 kB\r\n";
    assert_eq!(get_ram_info(Some(crlf)), RamInfo { total_mb: 2, used_mb: 1, available_mb: 1 });
    assert_eq!(
        summarize_cpuinfo("processor : 0\r\nphysical id : 0\r\ncore id : 0\r\n"),
        CpuCounts { threads: 1, physical_cores: 1 }
    );
}

#[test]
fn distinct_cores_stay_within_threads() {
    let text = "processor : 0\nphysical id : 0\ncore id : 0\nprocessor : 1\nphysical id : 1\ncore id : 0\nprocessor : 2\nphysical id : 1\ncore id : 0\n";
    let counts = summarize_cpuinfo(text);
    assert_eq!(counts, CpuCounts { threads: 3, physical_cores: 2 });
    let (cores, threads) = resolve_cpu_counts(&counts, 0);
    assert!(cores <= threads);
}
