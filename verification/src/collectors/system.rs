//! Identity of the host the samples come from.
use vstd::prelude::*;

verus! {

/// Static facts about the host.
pub struct SystemInfo {
    pub name: String,
    pub kernel_version: String,
    pub os_version: String,
    pub host_name: String,
}

/// Mathematical model of `SystemInfo`.
pub ghost struct SystemInfoView {
    pub name: Seq<char>,
    pub kernel_version: Seq<char>,
    pub os_version: Seq<char>,
    pub host_name: Seq<char>,
}

impl View for SystemInfo {
    type V = SystemInfoView;

    open spec fn view(&self) -> SystemInfoView {
        SystemInfoView {
            name: self.name@,
            kernel_version: self.kernel_version@,
            os_version: self.os_version@,
            host_name: self.host_name@,
        }
    }
}

impl Clone for SystemInfo {
    fn clone(&self) -> (res: Self)
        ensures
            res@ == self@,
    {
        SystemInfo {
            name: self.name.clone(),
            kernel_version: self.kernel_version.clone(),
            os_version: self.os_version.clone(),
            host_name: self.host_name.clone(),
        }
    }
}

} // verus!
