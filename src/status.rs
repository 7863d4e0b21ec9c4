//! The snapshot as a whole: the three parsed sections, and the store that
//! holds the latest snapshot.

use vstd::prelude::*;
use crate::cpu::{cpu_diagnostics, cpu_parse, parse_cpu_file_checked};
use crate::diag::Diagnostic;
use crate::models::{empty_memory, CpuInfo, MemoryInfo, ProcessesInfo, SystemStatus};
use crate::procs::{parse_proc_file_checked, proc_diagnostics, proc_parse};
use crate::ram::{parse_ram_file_checked, ram_diagnostics, ram_parse};

verus! {

/// The findings on the lines of each file.
pub struct Findings {
    pub cpu: Vec<Diagnostic>,
    pub ram: Vec<Diagnostic>,
    pub procs: Vec<Diagnostic>,
}

/// Builds a snapshot from the contents of the CPU, RAM and process files.
/// A file that could not be read (`None`) leaves its section empty; the
/// others are parsed all the same.
pub fn status_from_contents(cpu: Option<&str>, ram: Option<&str>, procs: Option<&str>) -> (r:
    SystemStatus)
    ensures
        cpu matches Some(c) ==> r.cpu@ == cpu_parse(c@),
        cpu is None ==> r.cpu@.cpu_temperature_milli is None && r.cpu@.cpu_usage is None,
        ram matches Some(m) ==> r.memory == ram_parse(m@),
        ram is None ==> r.memory == empty_memory(),
        procs matches Some(p) ==> r.processes@ == proc_parse(p@),
        procs is None ==> r.processes@.len() == 0,
{
    status_from_contents_checked(cpu, ram, procs).0
}

/// As `status_from_contents`, with the findings on each file's lines (none
/// for a file that could not be read).
pub fn status_from_contents_checked(cpu: Option<&str>, ram: Option<&str>, procs: Option<&str>) -> (r:
    (SystemStatus, Findings))
    ensures
        cpu matches Some(c) ==> r.0.cpu@ == cpu_parse(c@) && r.1.cpu@ == cpu_diagnostics(c@),
        cpu is None ==> r.0.cpu@.cpu_temperature_milli is None && r.0.cpu@.cpu_usage is None
            && r.1.cpu@.len() == 0,
        ram matches Some(m) ==> r.0.memory == ram_parse(m@) && r.1.ram@ == ram_diagnostics(m@),
        ram is None ==> r.0.memory == empty_memory() && r.1.ram@.len() == 0,
        procs matches Some(p) ==> r.0.processes@ == proc_parse(p@) && r.1.procs@
            == proc_diagnostics(p@),
        procs is None ==> r.0.processes@.len() == 0 && r.1.procs@.len() == 0,
{
    let (cpu_info, cpu_found) = match cpu {
        Some(c) => parse_cpu_file_checked(c),
        None => (CpuInfo::empty(), Vec::new()),
    };
    let (memory, ram_found) = match ram {
        Some(m) => parse_ram_file_checked(m),
        None => (MemoryInfo::empty(), Vec::new()),
    };
    let (processes, proc_found) = match procs {
        Some(p) => parse_proc_file_checked(p),
        None => (ProcessesInfo::empty(), Vec::new()),
    };
    (
        SystemStatus { cpu: cpu_info, memory, processes },
        Findings { cpu: cpu_found, ram: ram_found, procs: proc_found },
    )
}

/// Holds the latest snapshot. A new snapshot replaces the old one whole.
pub struct StatusStore {
    current: SystemStatus,
}

impl StatusStore {
    pub closed spec fn latest(&self) -> SystemStatus {
        self.current
    }

    /// A store holding the empty snapshot.
    pub fn new() -> (r: StatusStore)
        ensures
            r.latest().cpu@.cpu_temperature_milli is None,
            r.latest().cpu@.cpu_usage is None,
            r.latest().memory == empty_memory(),
            r.latest().processes@.len() == 0,
    {
        StatusStore { current: SystemStatus::empty() }
    }

    /// Replaces the snapshot; nothing of the previous one remains.
    pub fn replace(&mut self, next: SystemStatus)
        ensures
            final(self).latest() == next,
    {
        self.current = next;
    }

    /// The latest snapshot.
    pub fn snapshot(&self) -> (r: &SystemStatus)
        ensures
            *r == self.latest(),
    {
        &self.current
    }
}

} // verus!
