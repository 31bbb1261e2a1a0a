//! The services that the init runs. Each is a state machine: the caller
//! performs the outside work (spawning, file system, waiting) that a method
//! asks for and reports its outcome back.

pub mod dev;
pub mod mount;
pub mod process;
pub mod network;
pub mod console;
pub mod openssh;
pub mod gadget;
