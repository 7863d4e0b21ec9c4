use host_agent::cpu::{parse_cpu_file, parse_cpu_file_checked};
use host_agent::diag::{Diagnostic, DiagnosticKind};
use host_agent::procs::{parse_proc_file, parse_proc_file_checked};
use host_agent::ram::{parse_ram_file, parse_ram_file_checked};
use host_agent::status::{status_from_contents, status_from_contents_checked, StatusStore};
use host_agent::text::{extract_value, parse_numeric, ParseError};

const CPU_SAMPLE: &str = "CPU temp: 45000
Full CPU:
User norm: 100
User nice: 5
Kernel: 50
Idle: 1000
Iowait: 7
Irq: 3
Soft irq: 2
Core 0:
User norm: 10
Idle: 500
Core 1:
User norm: 20
Idle: 400
";

#[test]
fn cores_keep_file_order() {
    let info = parse_cpu_file(CPU_SAMPLE);
    let usage = info.cpu_usage.expect("usage present");
    let cores = usage.cores.expect("cores present");
    assert_eq!(cores.len(), 2);
    assert_eq!(cores[0].core_id, 0);
    assert_eq!(cores[1].core_id, 1);
    assert_eq!(cores[0].stats.user_norm, Some(10));
    assert_eq!(cores[0].stats.idle, Some(500));
    assert_eq!(cores[1].stats.user_norm, Some(20));
    assert_eq!(cores[1].stats.idle, Some(400));
    let full = usage.full.expect("full block present");
    assert_eq!(full.user_norm, Some(100));
    assert_eq!(full.user_nice, Some(5));
    assert_eq!(full.kernel, Some(50));
    assert_eq!(full.idle, Some(1000));
    assert_eq!(full.iowait, Some(7));
    assert_eq!(full.irq, Some(3));
    assert_eq!(full.soft_irq, Some(2));
}

#[test]
fn temperature_in_degrees() {
    let info = parse_cpu_file("CPU temp: 45000\n");
    assert_eq!(info.cpu_temperature_milli, Some(45000));
    let celsius = info.cpu_temperature_milli.unwrap() as f32 / 1000.0;
    assert_eq!(celsius, 45.0);
    assert!(info.cpu_usage.is_none());
}

#[test]
fn negative_and_bad_temperature() {
    assert_eq!(parse_cpu_file("CPU temp: -1500").cpu_temperature_milli, Some(-1500));
    assert_eq!(parse_cpu_file("CPU temp: warm").cpu_temperature_milli, None);
}

#[test]
fn non_numeric_value_leaves_only_that_field_absent() {
    let text = "Full CPU:\nUser norm: 100\nKernel: abc\nIdle: 9\n";
    let info = parse_cpu_file(text);
    let full = info.cpu_usage.unwrap().full.unwrap();
    assert_eq!(full.user_norm, Some(100));
    assert_eq!(full.kernel, None);
    assert_eq!(full.idle, Some(9));
}

#[test]
fn bad_core_id_opens_no_block() {
    let text = "Core x:\nUser norm: 10\nCore 3:\nIdle: 1\n";
    let cores = parse_cpu_file(text).cpu_usage.unwrap().cores.unwrap();
    assert_eq!(cores.len(), 1);
    assert_eq!(cores[0].core_id, 3);
    assert_eq!(cores[0].stats.idle, Some(1));
    assert_eq!(cores[0].stats.user_norm, None);
}

#[test]
fn empty_cpu_file_has_no_usage() {
    let info = parse_cpu_file("");
    assert!(info.cpu_usage.is_none());
    assert!(info.cpu_temperature_milli.is_none());
    let info = parse_cpu_file("garbage line\n\n   \n");
    assert!(info.cpu_usage.is_none());
}

#[test]
fn full_header_alone_gives_usage_without_cores() {
    let usage = parse_cpu_file("Full CPU:\r\n").cpu_usage.unwrap();
    assert!(usage.cores.is_none());
    let full = usage.full.unwrap();
    assert_eq!(full.user_norm, None);
}

#[test]
fn ram_figures() {
    let m = parse_ram_file("Ram total: 4000000 kB\nRam free: 1000\nSomething: 5\nRam available: 2500\n");
    assert_eq!(m.total, Some(4000000));
    assert_eq!(m.free, Some(1000));
    assert_eq!(m.available, Some(2500));
    let m = parse_ram_file("Ram total: many\n");
    assert_eq!(m.total, None);
}

#[test]
fn ram_largest_value() {
    let m = parse_ram_file("Ram total: 18446744073709551615\nRam free: 18446744073709551616\n");
    assert_eq!(m.total, Some(u64::MAX));
    assert_eq!(m.free, None);
}

const PROC_SAMPLE: &str = "Proc: 1 init
State: S (sleeping)
User: 0 0 0 root
Group: wheel
Memory: 2479488/4000000
Swap: 12
Threads: 4
Utime: 77
Max_cpus: 8
Proc: abc broken
State: R
Proc: 42 my prog
State: R
Memory: 2479488
";

#[test]
fn process_records() {
    let info = parse_proc_file(PROC_SAMPLE);
    assert_eq!(info.processes.len(), 2);
    let p = &info.processes[0];
    assert_eq!(p.pid, Some(1));
    assert_eq!(p.name.as_deref(), Some("init"));
    assert_eq!(p.state_code.as_deref(), Some("S"));
    assert_eq!(p.state_description.as_deref(), Some("sleeping"));
    assert_eq!(p.user.as_deref(), Some("0"));
    assert_eq!(p.group.as_deref(), Some("wheel"));
    assert_eq!(p.swap, Some(12));
    assert_eq!(p.threads, Some(4));
    assert_eq!(p.utime, Some(77));
    let q = &info.processes[1];
    assert_eq!(q.pid, Some(42));
    assert_eq!(q.name.as_deref(), Some("my prog"));
    assert_eq!(q.state_code.as_deref(), Some("R"));
    assert_eq!(q.state_description, None);
}

#[test]
fn bad_pid_block_is_dropped() {
    let info = parse_proc_file("Proc: x1 ghost\nState: R\nProc: 5 real\n");
    assert_eq!(info.processes.len(), 1);
    assert_eq!(info.processes[0].pid, Some(5));
    let info = parse_proc_file("Proc: 7\nState: R\n");
    assert_eq!(info.processes.len(), 0);
}

#[test]
fn memory_pair_and_malformed_memory() {
    let info = parse_proc_file(PROC_SAMPLE);
    assert_eq!(info.processes[0].memory_rss, Some(2479488));
    assert_eq!(info.processes[0].memory_virt, Some(4000000));
    assert_eq!(info.processes[1].memory_rss, None);
    assert_eq!(info.processes[1].memory_virt, None);
    let info = parse_proc_file("Proc: 3 a\nMemory: x/10\n");
    assert_eq!(info.processes[0].memory_rss, None);
    assert_eq!(info.processes[0].memory_virt, Some(10));
}

#[test]
fn lines_before_any_header_are_ignored() {
    let info = parse_proc_file("State: R\nSwap: 1\n\nProc: 9 x\n");
    assert_eq!(info.processes.len(), 1);
    assert_eq!(info.processes[0].swap, None);
    assert_eq!(info.processes[0].state_code, None);
}

#[test]
fn duplicates_are_kept() {
    let info = parse_proc_file("Proc: 9 x\nProc: 9 x\n");
    assert_eq!(info.processes.len(), 2);
}

#[test]
fn extract_value_takes_first_token() {
    assert_eq!(extract_value("CPU temp: 45000 mC", "CPU temp").as_deref(), Some("45000"));
    assert_eq!(extract_value("Ram total:   12  ", "Ram total").as_deref(), Some("12"));
    assert_eq!(extract_value("Ram total:", "Ram total"), None);
    assert_eq!(extract_value("Ram total 12", "Ram total"), None);
    assert_eq!(extract_value("Other: 12", "Ram total"), None);
    assert_eq!(extract_value("Key: a:b c", "Key").as_deref(), Some("a:b"));
}

#[test]
fn parse_numeric_reports_value() {
    match parse_numeric("+17", "Idle: +17", "/tmp/cpu") {
        Ok(v) => assert_eq!(v, 17),
        Err(_) => panic!("should parse"),
    }
    match parse_numeric("12x", "Idle: 12x", "/tmp/cpu") {
        Err(ParseError::ValueFormat { file, line, value, .. }) => {
            assert_eq!(file, "/tmp/cpu");
            assert_eq!(line, "Idle: 12x");
            assert_eq!(value, "12x");
        }
        _ => panic!("expected a value error"),
    }
    assert!(parse_numeric("", "Idle:", "f").is_err());
    assert!(parse_numeric("-1", "Idle: -1", "f").is_err());
}

#[test]
fn unreadable_file_leaves_section_empty() {
    let s = status_from_contents(None, Some("Ram free: 3\n"), None);
    assert!(s.cpu.cpu_usage.is_none());
    assert_eq!(s.memory.free, Some(3));
    assert!(s.processes.processes.is_empty());
}

#[test]
fn store_replaces_whole_snapshot() {
    let mut store = StatusStore::new();
    assert!(store.snapshot().memory.total.is_none());
    let first = status_from_contents(Some(CPU_SAMPLE), Some("Ram total: 1\n"), Some(PROC_SAMPLE));
    store.replace(first);
    assert_eq!(store.snapshot().memory.total, Some(1));
    assert_eq!(store.snapshot().processes.processes.len(), 2);
    let second = status_from_contents(None, Some("Ram free: 2\n"), None);
    store.replace(second);
    let s = store.snapshot();
    assert_eq!(s.memory.total, None);
    assert_eq!(s.memory.free, Some(2));
    assert!(s.processes.processes.is_empty());
    assert!(s.cpu.cpu_usage.is_none());
}

fn kinds(found: &[Diagnostic]) -> Vec<(usize, DiagnosticKind)> {
    found.iter().map(|d| (d.line, d.kind)).collect()
}

#[test]
fn memory_without_slash_is_reported() {
    let (info, found) = parse_proc_file_checked("Proc: 1 a\nMemory: 2479488");
    assert_eq!(info.processes.len(), 1);
    assert_eq!(info.processes[0].memory_rss, None);
    assert_eq!(info.processes[0].memory_virt, None);
    assert_eq!(kinds(&found), vec![(1, DiagnosticKind::MalformedMemory)]);
    assert!(found[0].is_warning());
}

#[test]
fn process_file_findings() {
    let text = "stray\nProc: x bad\nProc: 2\nProc: 3 ok\nMemory: a/5\nSwap: q\nMax_cpus: 4\nWhat: 1\nState: R\n";
    let (info, found) = parse_proc_file_checked(text);
    assert_eq!(info.processes.len(), 1);
    assert_eq!(
        kinds(&found),
        vec![
            (0, DiagnosticKind::UnrecognizedLine),
            (1, DiagnosticKind::BadPid),
            (2, DiagnosticKind::MalformedProcHeader),
            (4, DiagnosticKind::BadMemoryValue { rss_bad: true, virt_bad: false }),
            (5, DiagnosticKind::BadValue),
            (6, DiagnosticKind::IgnoredLine),
            (7, DiagnosticKind::UnrecognizedLine),
        ]
    );
    assert!(!found[5].is_warning());
}

#[test]
fn cpu_file_findings() {
    let text = "CPU temp: hot\nnoise\nFull CPU:\nKernel: abc\nBogus: 1\nCore 7\nCore z:\nCore 1:\nIdle: 5\n";
    let (info, found) = parse_cpu_file_checked(text);
    assert_eq!(info.cpu_temperature_milli, None);
    assert_eq!(info.cpu_usage.unwrap().cores.unwrap().len(), 1);
    assert_eq!(
        kinds(&found),
        vec![
            (0, DiagnosticKind::BadValue),
            (1, DiagnosticKind::UnrecognizedLine),
            (3, DiagnosticKind::BadValue),
            (4, DiagnosticKind::UnrecognizedLine),
            (5, DiagnosticKind::MalformedCoreHeader),
            (6, DiagnosticKind::BadCoreId),
        ]
    );
    let (_, found) = parse_cpu_file_checked(CPU_SAMPLE);
    assert!(found.is_empty());
}

#[test]
fn ram_unknown_lines_are_quiet() {
    let (m, found) = parse_ram_file_checked("Ram total: 10\nSwap total: 4\nRam free: x\n");
    assert_eq!(m.total, Some(10));
    assert_eq!(kinds(&found), vec![(1, DiagnosticKind::IgnoredLine), (2, DiagnosticKind::BadValue)]);
    assert!(!found[0].is_warning());
    assert!(found[1].is_warning());
}

#[test]
fn snapshot_findings_per_file() {
    let (s, f) = status_from_contents_checked(Some("Core q:\n"), None, Some("Proc: 1 a\nSwap: z\n"));
    assert!(s.cpu.cpu_usage.is_none());
    assert_eq!(kinds(&f.cpu), vec![(0, DiagnosticKind::BadCoreId)]);
    assert!(f.ram.is_empty());
    assert_eq!(kinds(&f.procs), vec![(1, DiagnosticKind::BadValue)]);
    assert_eq!(s.processes.processes.len(), 1);
}
