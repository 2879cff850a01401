//! GPU readings. Usage and fan speed are in hundredths of a percent,
//! the temperature in hundredths of a degree Celsius.
use vstd::prelude::*;

verus! {

/// One GPU reading.
pub struct GpuInfo {
    pub name: String,
    pub usage_percent: u32,
    pub memory_used_bytes: u64,
    pub memory_total_bytes: u64,
    pub temperature: i32,
    pub fan_speed_percent: u32,
}

/// Mathematical model of `GpuInfo`.
pub ghost struct GpuInfoView {
    pub name: Seq<char>,
    pub usage_percent: u32,
    pub memory_used_bytes: u64,
    pub memory_total_bytes: u64,
    pub temperature: i32,
    pub fan_speed_percent: u32,
}

impl View for GpuInfo {
    type V = GpuInfoView;

    open spec fn view(&self) -> GpuInfoView {
        GpuInfoView {
            name: self.name@,
            usage_percent: self.usage_percent,
            memory_used_bytes: self.memory_used_bytes,
            memory_total_bytes: self.memory_total_bytes,
            temperature: self.temperature,
            fan_speed_percent: self.fan_speed_percent,
        }
    }
}

impl Clone for GpuInfo {
    fn clone(&self) -> (res: Self)
        ensures
            res@ == self@,
    {
        GpuInfo {
            name: self.name.clone(),
            usage_percent: self.usage_percent,
            memory_used_bytes: self.memory_used_bytes,
            memory_total_bytes: self.memory_total_bytes,
            temperature: self.temperature,
            fan_speed_percent: self.fan_speed_percent,
        }
    }
}

impl GpuInfo {
    /// A GPU record with the given readings.
    pub fn new(
        name: String,
        usage_percent: u32,
        memory_used_bytes: u64,
        memory_total_bytes: u64,
        temperature: i32,
        fan_speed_percent: u32,
    ) -> (r: GpuInfo)
        ensures
            r@ == (GpuInfoView {
                name: name@,
                usage_percent,
                memory_used_bytes,
                memory_total_bytes,
                temperature,
                fan_speed_percent,
            }),
    {
        GpuInfo {
            name,
            usage_percent,
            memory_used_bytes,
            memory_total_bytes,
            temperature,
            fan_speed_percent,
        }
    }
}

} // verus!
