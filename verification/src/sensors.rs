pub mod cpu_freq;
pub mod cpu_util;
pub mod i2c;
pub mod network_stats;
pub mod poller;
pub mod superio;
