//! The snapshot's data model. Every reading is optional: an absent field was
//! not present in the source text, which differs from a present zero.

use vstd::prelude::*;

verus! {

/// Counters of one CPU stat block, in raw ticks.
#[derive(Clone, Copy, Debug)]
pub struct CpuStat {
    pub user_norm: Option<u64>,
    pub user_nice: Option<u64>,
    pub kernel: Option<u64>,
    pub idle: Option<u64>,
    pub iowait: Option<u64>,
    pub irq: Option<u64>,
    pub soft_irq: Option<u64>,
}

pub open spec fn empty_stat() -> CpuStat {
    CpuStat {
        user_norm: None,
        user_nice: None,
        kernel: None,
        idle: None,
        iowait: None,
        irq: None,
        soft_irq: None,
    }
}

impl CpuStat {
    /// A stat block with no counter present.
    pub fn empty() -> (r: CpuStat)
        ensures
            r == empty_stat(),
    {
        CpuStat {
            user_norm: None,
            user_nice: None,
            kernel: None,
            idle: None,
            iowait: None,
            irq: None,
            soft_irq: None,
        }
    }
}

/// The stat block of one numbered core.
#[derive(Clone, Copy, Debug)]
pub struct CoreStat {
    pub core_id: u32,
    pub stats: CpuStat,
}

#[derive(Clone, Debug)]
pub struct CpuUsage {
    /// The aggregate block over all cores.
    pub full: Option<CpuStat>,
    /// The per-core blocks, in file order.
    pub cores: Option<Vec<CoreStat>>,
}

pub struct CpuUsageView {
    pub full: Option<CpuStat>,
    pub cores: Option<Seq<CoreStat>>,
}

impl View for CpuUsage {
    type V = CpuUsageView;

    open spec fn view(&self) -> CpuUsageView {
        CpuUsageView {
            full: self.full,
            cores: match self.cores {
                Some(v) => Some(v@),
                None => None,
            },
        }
    }
}

#[derive(Clone, Debug)]
pub struct CpuInfo {
    /// The temperature in thousandths of a degree Celsius, as the file gives it.
    pub cpu_temperature_milli: Option<i64>,
    pub cpu_usage: Option<CpuUsage>,
}

pub struct CpuInfoView {
    pub cpu_temperature_milli: Option<i64>,
    pub cpu_usage: Option<CpuUsageView>,
}

impl View for CpuInfo {
    type V = CpuInfoView;

    open spec fn view(&self) -> CpuInfoView {
        CpuInfoView {
            cpu_temperature_milli: self.cpu_temperature_milli,
            cpu_usage: match self.cpu_usage {
                Some(u) => Some(u@),
                None => None,
            },
        }
    }
}

impl CpuInfo {
    pub fn empty() -> (r: CpuInfo)
        ensures
            r@.cpu_temperature_milli is None,
            r@.cpu_usage is None,
    {
        CpuInfo { cpu_temperature_milli: None, cpu_usage: None }
    }
}

/// Memory figures in kB.
#[derive(Clone, Copy, Debug)]
pub struct MemoryInfo {
    pub total: Option<u64>,
    pub free: Option<u64>,
    pub available: Option<u64>,
}

pub open spec fn empty_memory() -> MemoryInfo {
    MemoryInfo { total: None, free: None, available: None }
}

impl MemoryInfo {
    pub fn empty() -> (r: MemoryInfo)
        ensures
            r == empty_memory(),
    {
        MemoryInfo { total: None, free: None, available: None }
    }
}

pub open spec fn opt_view(o: Option<String>) -> Option<Seq<char>> {
    match o {
        Some(s) => Some(s@),
        None => None,
    }
}

/// One process record; it is kept only when its pid parsed.
#[derive(Clone, Debug)]
pub struct ProcessInfo {
    pub pid: Option<u32>,
    pub name: Option<String>,
    pub state_code: Option<String>,
    pub state_description: Option<String>,
    pub user: Option<String>,
    pub group: Option<String>,
    pub memory_rss: Option<u64>,
    pub memory_virt: Option<u64>,
    pub swap: Option<u64>,
    pub threads: Option<u32>,
    pub utime: Option<u64>,
}

pub struct ProcessView {
    pub pid: Option<u32>,
    pub name: Option<Seq<char>>,
    pub state_code: Option<Seq<char>>,
    pub state_description: Option<Seq<char>>,
    pub user: Option<Seq<char>>,
    pub group: Option<Seq<char>>,
    pub memory_rss: Option<u64>,
    pub memory_virt: Option<u64>,
    pub swap: Option<u64>,
    pub threads: Option<u32>,
    pub utime: Option<u64>,
}

impl View for ProcessInfo {
    type V = ProcessView;

    open spec fn view(&self) -> ProcessView {
        ProcessView {
            pid: self.pid,
            name: opt_view(self.name),
            state_code: opt_view(self.state_code),
            state_description: opt_view(self.state_description),
            user: opt_view(self.user),
            group: opt_view(self.group),
            memory_rss: self.memory_rss,
            memory_virt: self.memory_virt,
            swap: self.swap,
            threads: self.threads,
            utime: self.utime,
        }
    }
}

/// The process records of one snapshot, in file order.
#[derive(Clone, Debug)]
pub struct ProcessesInfo {
    pub processes: Vec<ProcessInfo>,
}

impl View for ProcessesInfo {
    type V = Seq<ProcessView>;

    open spec fn view(&self) -> Seq<ProcessView> {
        self.processes@.map_values(|p: ProcessInfo| p@)
    }
}

impl ProcessesInfo {
    pub fn empty() -> (r: ProcessesInfo)
        ensures
            r@.len() == 0,
    {
        ProcessesInfo { processes: Vec::new() }
    }
}

/// One complete snapshot of the three status files.
#[derive(Clone, Debug)]
pub struct SystemStatus {
    pub cpu: CpuInfo,
    pub memory: MemoryInfo,
    pub processes: ProcessesInfo,
}

impl SystemStatus {
    /// The snapshot before any file was read: every section absent.
    pub fn empty() -> (r: SystemStatus)
        ensures
            r.cpu@.cpu_temperature_milli is None,
            r.cpu@.cpu_usage is None,
            r.memory == empty_memory(),
            r.processes@.len() == 0,
    {
        SystemStatus {
            cpu: CpuInfo::empty(),
            memory: MemoryInfo::empty(),
            processes: ProcessesInfo::empty(),
        }
    }
}

/// The body of a kill request: the pid to end.
#[derive(Clone, Copy, Debug)]
pub struct KillRequest {
    pub pid: u32,
}

} // verus!
