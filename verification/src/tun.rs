//! The virtual network interface.

pub mod device;
