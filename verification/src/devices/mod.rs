//! Devices: what LEDs are sent to and where auxiliary data comes from.

pub mod auxiliary_data;
pub mod led_output;
pub mod manager;
pub mod threaded_device;
