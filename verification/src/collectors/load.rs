//! Load averages, in thousandths of a runnable task.
use vstd::prelude::*;

verus! {

/// The one-, five- and fifteen-minute load averages of one capture.
pub struct LoadInfo {
    pub one: u64,
    pub five: u64,
    pub fifteen: u64,
}

impl Clone for LoadInfo {
    fn clone(&self) -> (res: Self)
        ensures
            res == *self,
    {
        LoadInfo { one: self.one, five: self.five, fifteen: self.fifteen }
    }
}

} // verus!
