//! Sound cards.

use vstd::prelude::*;

verus! {

#[derive(Debug, Clone)]
pub struct AudioDevice {
    pub card_index: u32,
    pub card_id: String,
    pub card_long_name: String,
    pub driver: String,
    pub bus_type: AudioBusType,
    pub codec: Option<String>,
    pub pci_bus_address: Option<String>,
}

#[derive(Debug, Clone, PartialEq, Eq)]
pub enum AudioBusType {
    HdAudio,
    Ac97,
    Usb,
    Virtual,
    Unknown(String),
}

} // verus!
