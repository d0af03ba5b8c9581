pub mod audio;
pub mod battery;
pub mod gpu;
pub mod memory;
pub mod motherboard;
pub mod network;
pub mod sensor;
pub mod storage;
pub mod usb;
