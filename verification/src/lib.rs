//! Abstracts over the hardware that is attached to a Raspberry Pi.
//!
//! Hardware devices have ports, which are mapped to virtual devices in a 16-bit address space. What
//! talks to hardware is a state machine: it says what to do next, and takes the outcome.
pub mod bits;
pub mod bme280;
pub mod button_expander;
pub mod buttons;
pub mod config;
pub mod device;
pub mod device_core;
pub mod dht22;
pub mod dht22_expander;
pub mod dht22_lib;
pub mod ds18;
pub mod ds18b20_expander;
pub mod ds18b20_expander_lib;
pub mod event;
pub mod factory;
pub mod failure;
pub mod fan_heater;
pub mod gpio;
pub mod http;
pub mod i2c;
pub mod i2c_mock;
pub mod mapping;
pub mod mcp23017;
pub mod mcp23017_input;
pub mod mcp23s17;
pub mod pca9685;
pub mod poll;
pub mod tasmota_relay_expander;
pub mod tcp;
pub mod text;
pub mod universe;
pub mod value;
