//! What is known of the chip that is being monitored.
use vstd::prelude::*;

verus! {

/// One group of CPU cores that share a frequency table.
#[derive(Debug, Default, Clone)]
pub struct CpuDomainInfo {
    /// The name that the domain's channels carry, such as `ECPU`.
    pub name: String,
    /// The number of cores.
    pub units: u32,
    /// The frequencies that the cores can run at.
    pub freqs_mhz: Vec<u32>,
}

/// The chip's description.
#[derive(Debug, Default, Clone)]
pub struct SocInfo {
    pub mac_model: String,
    pub chip_name: String,
    pub memory_gb: u16,
    pub cpu_domains: Vec<CpuDomainInfo>,
    pub gpu_cores: u8,
    pub gpu_freqs: Vec<u32>,
}

} // verus!
