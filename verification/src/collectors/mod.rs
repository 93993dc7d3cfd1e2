//! The collectors of the diagnostics, one module per command.
pub mod usb;
pub mod packets;
pub mod pidstat;
pub mod system;
pub mod doctor;
pub mod ai;
pub mod top;
pub mod network;
