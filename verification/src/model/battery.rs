//! Battery chemistry and charging state.

use vstd::prelude::*;

verus! {

#[derive(Debug, Clone, PartialEq, Eq)]
pub enum BatteryChemistry {
    LithiumIon,
    LithiumPolymer,
    NickelMetalHydride,
    NickelCadmium,
    Unknown(String),
}

#[derive(Debug, Clone, PartialEq, Eq)]
pub enum BatteryStatus {
    Charging,
    Discharging,
    Full,
    NotCharging,
    Unknown,
}

} // verus!
