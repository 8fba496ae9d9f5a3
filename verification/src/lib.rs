//! Device directory and pairing bridge for wireless peripherals.
//!
//! The crate holds a registry of device records aggregated from a
//! device-management bus, filtering and bulk pair/connect operations over
//! it, the decision logic of the interactive pairing agent, and the
//! multi-column terminal layout engine used to list devices.

pub mod agent;
mod console;
pub mod device;
pub mod pairing;
pub mod layout;
pub mod manager;
pub mod patterns;
pub mod registry;
pub mod term;
pub mod text;

pub use device::{Device, DeviceProps};
pub use manager::BluetoothManager;
pub use registry::{DeviceList, FilterBehaviour};
pub use term::TermSize;
pub use text::contains_str;
