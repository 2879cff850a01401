//! Per-volume disk space figures derived from one raw read.
use vstd::prelude::*;

verus! {

/// Space figures of one mounted volume as the raw reader reports them.
pub struct RawVolume {
    pub name: String,
    pub mount_point: String,
    pub total_space: u64,
    pub available_space: u64,
}

/// Mathematical model of `RawVolume`.
pub ghost struct RawVolumeView {
    pub name: Seq<char>,
    pub mount_point: Seq<char>,
    pub total_space: u64,
    pub available_space: u64,
}

impl View for RawVolume {
    type V = RawVolumeView;

    open spec fn view(&self) -> RawVolumeView {
        RawVolumeView {
            name: self.name@,
            mount_point: self.mount_point@,
            total_space: self.total_space,
            available_space: self.available_space,
        }
    }
}

/// One volume inside a snapshot. `usage_percent` is in hundredths of a
/// percent of the total space.
pub struct DiskInfo {
    pub name: String,
    pub mount_point: String,
    pub total_space: u64,
    pub available_space: u64,
    pub used_space: u64,
    pub usage_percent: u32,
}

/// Mathematical model of `DiskInfo`.
pub ghost struct DiskInfoView {
    pub name: Seq<char>,
    pub mount_point: Seq<char>,
    pub total_space: u64,
    pub available_space: u64,
    pub used_space: u64,
    pub usage_percent: u32,
}

impl View for DiskInfo {
    type V = DiskInfoView;

    open spec fn view(&self) -> DiskInfoView {
        DiskInfoView {
            name: self.name@,
            mount_point: self.mount_point@,
            total_space: self.total_space,
            available_space: self.available_space,
            used_space: self.used_space,
            usage_percent: self.usage_percent,
        }
    }
}

impl Clone for DiskInfo {
    fn clone(&self) -> (res: Self)
        ensures
            res@ == self@,
    {
        DiskInfo {
            name: self.name.clone(),
            mount_point: self.mount_point.clone(),
            total_space: self.total_space,
            available_space: self.available_space,
            used_space: self.used_space,
            usage_percent: self.usage_percent,
        }
    }
}

/// Space used on a volume: whatever of the total is not available.
pub open spec fn spec_used(total: u64, available: u64) -> u64 {
    if total >= available {
        (total - available) as u64
    } else {
        0
    }
}

/// Used share of a volume in hundredths of a percent; an empty volume
/// counts as unused.
pub open spec fn spec_usage_percent(total: u64, available: u64) -> u32 {
    if total == 0 {
        0
    } else {
        (spec_used(total, available) * 10000 / (total as int)) as u32
    }
}

/// The snapshot record of one raw volume. An empty volume name falls
/// back to the mount point, so every volume has a displayable name.
pub open spec fn volume_info(v: RawVolumeView) -> DiskInfoView {
    DiskInfoView {
        name: if v.name.len() == 0 {
            v.mount_point
        } else {
            v.name
        },
        mount_point: v.mount_point,
        total_space: v.total_space,
        available_space: v.available_space,
        used_space: spec_used(v.total_space, v.available_space),
        usage_percent: spec_usage_percent(v.total_space, v.available_space),
    }
}

impl DiskInfo {
    /// Derives the snapshot record of one volume from its raw space
    /// figures.
    pub fn from_disk(v: &RawVolume) -> (r: DiskInfo)
        ensures
            r@ == volume_info(v@),
    {
        let used: u64 = if v.total_space >= v.available_space {
            v.total_space - v.available_space
        } else {
            0
        };
        let usage: u32 = if v.total_space == 0 {
            0
        } else {
            let wide: u128 = (used as u128) * 10000 / (v.total_space as u128);
            proof {
                assert(used <= v.total_space);
                assert((used as int) * 10000 / (v.total_space as int) <= 10000) by (nonlinear_arith)
                    requires
                        used <= v.total_space,
                        v.total_space > 0,
                ;
            }
            wide as u32
        };
        let name = if v.name.as_str().is_empty() {
            v.mount_point.clone()
        } else {
            v.name.clone()
        };
        DiskInfo {
            name,
            mount_point: v.mount_point.clone(),
            total_space: v.total_space,
            available_space: v.available_space,
            used_space: used,
            usage_percent: usage,
        }
    }
}

} // verus!
