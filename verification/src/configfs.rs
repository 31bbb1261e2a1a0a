//! The kernel's configuration file system (configfs).

pub mod usb;
