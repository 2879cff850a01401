//! The combined CPU and memory figure some consumers read as one record.
//! CPU usage is in hundredths of a percent.
use vstd::prelude::*;

verus! {

/// CPU usage beside the memory and swap totals of one capture.
pub struct CpuMemInfo {
    pub cpu_usage: u32,
    pub memory_used: u64,
    pub memory_total: u64,
    pub swap_used: u64,
    pub swap_total: u64,
}

impl Clone for CpuMemInfo {
    fn clone(&self) -> (res: Self)
        ensures
            res == *self,
    {
        CpuMemInfo {
            cpu_usage: self.cpu_usage,
            memory_used: self.memory_used,
            memory_total: self.memory_total,
            swap_used: self.swap_used,
            swap_total: self.swap_total,
        }
    }
}

} // verus!
