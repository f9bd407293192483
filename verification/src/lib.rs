//! Verified core of a bridge that follows the battery and noise-control
//! status of AirPods over the Apple Accessory Protocol.

pub mod control;
pub mod device;
pub mod protocol;
pub mod state;
pub mod sysfs;
pub mod text;
