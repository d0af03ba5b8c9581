//! Super I/O chips that the hardware monitor reader knows.

use vstd::prelude::*;

verus! {

/// Nuvoton hardware monitor chips, and any other chip by its id.
#[derive(Debug, Clone, Copy, PartialEq, Eq)]
pub enum ChipType {
    Nct6775,
    Nct6776,
    Nct6779,
    Nct6791,
    Nct6792,
    Nct6793,
    Nct6795,
    Nct6796,
    Nct6797,
    Nct6798,
    Nct6799,
    Other(u16),
}

/// A detected Super I/O chip and the base port of its hardware monitor.
#[derive(Debug, Clone, Copy)]
pub struct SuperIoChip {
    pub chip: ChipType,
    pub hwm_base: u16,
}

} // verus!
