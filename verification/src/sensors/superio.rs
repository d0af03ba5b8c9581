pub mod chip_detect;
pub mod nct67xx;
