//! Temperature sensors and batteries. Temperatures are in hundredths of
//! a degree Celsius, charge and health in hundredths of a percent.
use vstd::prelude::*;

verus! {

/// One temperature sensor reading.
pub struct SensorInfo {
    pub component: String,
    pub temperature: i32,
    pub unit: String,
    pub label: String,
}

/// Mathematical model of `SensorInfo`.
pub ghost struct SensorInfoView {
    pub component: Seq<char>,
    pub temperature: i32,
    pub unit: Seq<char>,
    pub label: Seq<char>,
}

impl View for SensorInfo {
    type V = SensorInfoView;

    open spec fn view(&self) -> SensorInfoView {
        SensorInfoView {
            component: self.component@,
            temperature: self.temperature,
            unit: self.unit@,
            label: self.label@,
        }
    }
}

impl Clone for SensorInfo {
    fn clone(&self) -> (res: Self)
        ensures
            res@ == self@,
    {
        SensorInfo {
            component: self.component.clone(),
            temperature: self.temperature,
            unit: self.unit.clone(),
            label: self.label.clone(),
        }
    }
}

/// Charging state of a battery.
pub enum BatteryState {
    Charging,
    Discharging,
    Full,
    Unknown,
}

impl Clone for BatteryState {
    fn clone(&self) -> (res: Self)
        ensures
            res == *self,
    {
        match self {
            BatteryState::Charging => BatteryState::Charging,
            BatteryState::Discharging => BatteryState::Discharging,
            BatteryState::Full => BatteryState::Full,
            BatteryState::Unknown => BatteryState::Unknown,
        }
    }
}

/// One battery reading.
pub struct BatteryInfo {
    pub name: String,
    pub charge_percent: u32,
    pub health_percent: u32,
    pub state: BatteryState,
}

/// Mathematical model of `BatteryInfo`.
pub ghost struct BatteryInfoView {
    pub name: Seq<char>,
    pub charge_percent: u32,
    pub health_percent: u32,
    pub state: BatteryState,
}

impl View for BatteryInfo {
    type V = BatteryInfoView;

    open spec fn view(&self) -> BatteryInfoView {
        BatteryInfoView {
            name: self.name@,
            charge_percent: self.charge_percent,
            health_percent: self.health_percent,
            state: self.state,
        }
    }
}

impl Clone for BatteryInfo {
    fn clone(&self) -> (res: Self)
        ensures
            res@ == self@,
    {
        BatteryInfo {
            name: self.name.clone(),
            charge_percent: self.charge_percent,
            health_percent: self.health_percent,
            state: self.state.clone(),
        }
    }
}

impl BatteryInfo {
    /// A battery record with the given readings.
    pub fn new(name: String, charge_percent: u32, health_percent: u32, state: BatteryState) -> (r:
        BatteryInfo)
        ensures
            r@ == (BatteryInfoView { name: name@, charge_percent, health_percent, state }),
    {
        BatteryInfo { name, charge_percent, health_percent, state }
    }
}

} // verus!
