//! Core logic of a small Linux init system: parsers for the kernel's
//! text interfaces (`/proc/modules`, `/proc/self/mounts`, `modules.alias`,
//! uevent messages), and the decision logic of the services that the init
//! runs, each written as a state machine that the caller drives.

pub mod text;
pub mod sysfs;
pub mod kmod;
pub mod procfs;
pub mod logging;
pub mod uevent;
pub mod service;
pub mod services;
pub mod configfs;
pub mod runtime;
pub mod helpers;
