//! Graphics adapters: vendor, PCIe link and display outputs.

use vstd::prelude::*;

verus! {

#[derive(Debug, Clone, PartialEq, Eq)]
pub enum GpuVendor {
    Nvidia,
    Amd,
    Intel,
    Unknown(String),
}

#[derive(Debug, Clone)]
pub struct PcieLinkInfo {
    pub current_gen: Option<u8>,
    pub current_width: Option<u8>,
    pub max_gen: Option<u8>,
    pub max_width: Option<u8>,
    pub current_speed: Option<String>,
    pub max_speed: Option<String>,
}

#[derive(Debug, Clone)]
pub struct DisplayOutput {
    pub connector_type: String,
    pub index: u32,
    pub status: String,
    pub monitor_name: Option<String>,
    pub resolution: Option<String>,
}

} // verus!
