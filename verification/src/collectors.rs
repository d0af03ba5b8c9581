pub mod audio;
pub mod me;
pub mod usb;
