//! Container readings. CPU usage is in hundredths of a percent.
use vstd::prelude::*;

verus! {

/// Lifecycle state of a container.
pub enum ContainerState {
    Running,
    Paused,
    Stopped,
    Crashed,
    Unknown,
}

impl Clone for ContainerState {
    fn clone(&self) -> (res: Self)
        ensures
            res == *self,
    {
        match self {
            ContainerState::Running => ContainerState::Running,
            ContainerState::Paused => ContainerState::Paused,
            ContainerState::Stopped => ContainerState::Stopped,
            ContainerState::Crashed => ContainerState::Crashed,
            ContainerState::Unknown => ContainerState::Unknown,
        }
    }
}

/// One container reading.
pub struct ContainerInfo {
    pub id: String,
    pub name: String,
    pub state: ContainerState,
    pub cpu_usage_percent: u32,
    pub memory_usage_bytes: u64,
    pub memory_limit_bytes: u64,
    pub network_rx_bytes: u64,
    pub network_tx_bytes: u64,
    pub disk_read_bytes: u64,
    pub disk_write_bytes: u64,
}

/// Mathematical model of `ContainerInfo`.
pub ghost struct ContainerInfoView {
    pub id: Seq<char>,
    pub name: Seq<char>,
    pub state: ContainerState,
    pub cpu_usage_percent: u32,
    pub memory_usage_bytes: u64,
    pub memory_limit_bytes: u64,
    pub network_rx_bytes: u64,
    pub network_tx_bytes: u64,
    pub disk_read_bytes: u64,
    pub disk_write_bytes: u64,
}

impl View for ContainerInfo {
    type V = ContainerInfoView;

    open spec fn view(&self) -> ContainerInfoView {
        ContainerInfoView {
            id: self.id@,
            name: self.name@,
            state: self.state,
            cpu_usage_percent: self.cpu_usage_percent,
            memory_usage_bytes: self.memory_usage_bytes,
            memory_limit_bytes: self.memory_limit_bytes,
            network_rx_bytes: self.network_rx_bytes,
            network_tx_bytes: self.network_tx_bytes,
            disk_read_bytes: self.disk_read_bytes,
            disk_write_bytes: self.disk_write_bytes,
        }
    }
}

impl Clone for ContainerInfo {
    fn clone(&self) -> (res: Self)
        ensures
            res@ == self@,
    {
        ContainerInfo {
            id: self.id.clone(),
            name: self.name.clone(),
            state: self.state.clone(),
            cpu_usage_percent: self.cpu_usage_percent,
            memory_usage_bytes: self.memory_usage_bytes,
            memory_limit_bytes: self.memory_limit_bytes,
            network_rx_bytes: self.network_rx_bytes,
            network_tx_bytes: self.network_tx_bytes,
            disk_read_bytes: self.disk_read_bytes,
            disk_write_bytes: self.disk_write_bytes,
        }
    }
}

impl ContainerInfo {
    /// A container record with the given readings.
    pub fn new(
        id: String,
        name: String,
        state: ContainerState,
        cpu_usage_percent: u32,
        memory_usage_bytes: u64,
        memory_limit_bytes: u64,
        network_rx_bytes: u64,
        network_tx_bytes: u64,
        disk_read_bytes: u64,
        disk_write_bytes: u64,
    ) -> (r: ContainerInfo)
        ensures
            r@ == (ContainerInfoView {
                id: id@,
                name: name@,
                state,
                cpu_usage_percent,
                memory_usage_bytes,
                memory_limit_bytes,
                network_rx_bytes,
                network_tx_bytes,
                disk_read_bytes,
                disk_write_bytes,
            }),
    {
        ContainerInfo {
            id,
            name,
            state,
            cpu_usage_percent,
            memory_usage_bytes,
            memory_limit_bytes,
            network_rx_bytes,
            network_tx_bytes,
            disk_read_bytes,
            disk_write_bytes,
        }
    }
}

} // verus!
