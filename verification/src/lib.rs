//! The verified core of a Bluetooth Low Energy proxy for ESPHome.
pub mod ble;
pub mod listener;
pub mod properties;
pub mod raw_adv;
pub mod startup;
pub mod supervisor;
pub mod text;
pub mod utils;
pub mod uuid;
pub mod variant;
