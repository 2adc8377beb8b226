//! Bridge between a publish/subscribe message bus and Tuya smart-home devices:
//! routing of bus topics to devices, command building, and a retry policy
//! for delivering commands over a flaky device session.

pub mod address;
pub mod bridge;
pub mod command;
pub mod config;
pub mod device;
pub mod dispatch;
pub mod text;

pub use address::IpAddr;
pub use command::{now_as_u32, payload};
pub use device::{DeviceInfo, DeviceMap, ErrorKind, TuyaType};
