//! Process samples: the raw per-process record the reader hands in, and
//! the trimmed record that a snapshot's top-process list carries.
use vstd::prelude::*;

verus! {

/// One entry of the flat process list as the raw reader reports it.
/// `cpu_usage` is in hundredths of a percent.
pub struct ProcSample {
    pub pid: u32,
    pub name: String,
    pub cpu_usage: u32,
    pub memory_bytes: u64,
    pub status: String,
    pub parent_pid: Option<u32>,
}

/// Mathematical model of `ProcSample`.
pub ghost struct ProcSampleView {
    pub pid: u32,
    pub name: Seq<char>,
    pub cpu_usage: u32,
    pub memory_bytes: u64,
    pub status: Seq<char>,
    pub parent_pid: Option<u32>,
}

impl View for ProcSample {
    type V = ProcSampleView;

    open spec fn view(&self) -> ProcSampleView {
        ProcSampleView {
            pid: self.pid,
            name: self.name@,
            cpu_usage: self.cpu_usage,
            memory_bytes: self.memory_bytes,
            status: self.status@,
            parent_pid: self.parent_pid,
        }
    }
}

impl Clone for ProcSample {
    fn clone(&self) -> (res: Self)
        ensures
            res@ == self@,
    {
        ProcSample {
            pid: self.pid,
            name: self.name.clone(),
            cpu_usage: self.cpu_usage,
            memory_bytes: self.memory_bytes,
            status: self.status.clone(),
            parent_pid: self.parent_pid,
        }
    }
}

/// One process as listed among a snapshot's top consumers.
/// `cpu_usage` is in hundredths of a percent.
pub struct ProcessInfo {
    pub pid: u32,
    pub name: String,
    pub cpu_usage: u32,
    pub memory: u64,
    pub status: String,
}

/// Mathematical model of `ProcessInfo`.
pub ghost struct ProcessInfoView {
    pub pid: u32,
    pub name: Seq<char>,
    pub cpu_usage: u32,
    pub memory: u64,
    pub status: Seq<char>,
}

impl View for ProcessInfo {
    type V = ProcessInfoView;

    open spec fn view(&self) -> ProcessInfoView {
        ProcessInfoView {
            pid: self.pid,
            name: self.name@,
            cpu_usage: self.cpu_usage,
            memory: self.memory,
            status: self.status@,
        }
    }
}

impl Clone for ProcessInfo {
    fn clone(&self) -> (res: Self)
        ensures
            res@ == self@,
    {
        ProcessInfo {
            pid: self.pid,
            name: self.name.clone(),
            cpu_usage: self.cpu_usage,
            memory: self.memory,
            status: self.status.clone(),
        }
    }
}

/// The top-process record of one raw sample.
pub open spec fn info_of_sample(q: ProcSampleView) -> ProcessInfoView {
    ProcessInfoView {
        pid: q.pid,
        name: q.name,
        cpu_usage: q.cpu_usage,
        memory: q.memory_bytes,
        status: q.status,
    }
}

impl ProcessInfo {
    /// Trims one raw sample down to the record a snapshot's top-process
    /// list carries.
    pub fn from_process(q: &ProcSample) -> (r: ProcessInfo)
        ensures
            r@ == info_of_sample(q@),
    {
        ProcessInfo {
            pid: q.pid,
            name: q.name.clone(),
            cpu_usage: q.cpu_usage,
            memory: q.memory_bytes,
            status: q.status.clone(),
        }
    }
}

} // verus!
