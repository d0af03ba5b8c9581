pub mod msr;
pub mod procfs;
pub mod sysfs;
