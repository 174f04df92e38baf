//! A GPIO pin that is read at regular intervals.
use vstd::prelude::*;

use crate::device_core::{DeviceReadCore, PortView};
use crate::value::{outcome, InputValue, InputValueType, Timestamp};

verus! {

/// Pull up/down configuration for a GPIO pin.
#[derive(Clone, Copy, Debug, PartialEq, Eq, Structural)]
pub enum PullUpDown {
    Up,
    Down,
}

/// Configuration for a GPIO pin.
#[derive(Debug)]
pub struct GpioConfig {
    pub bcm_pin: u8,
    pub pull: PullUpDown,
    pub readout_interval_milliseconds: u64,
    /// Whether to logically invert values read.
    pub invert: bool,
}

/// The pin as a device.
#[derive(Debug)]
pub struct Gpio {
    pub core: DeviceReadCore,
    pub invert: bool,
}

impl Gpio {
    /// The device has its port.
    pub open spec fn wf(&self) -> bool {
        self.core@.len() == 1
    }

    /// Checks a configuration.
    pub fn check_config(cfg: &GpioConfig) -> (result: Result<(), String>)
        ensures
            outcome(result) == (if cfg.readout_interval_milliseconds > 0 {
                Ok(())
            } else {
                Err("readout_interval_milliseconds must be > 0"@)
            }),
    {
        if cfg.readout_interval_milliseconds > 0 {
            Ok(())
        } else {
            Err("readout_interval_milliseconds must be > 0".to_owned())
        }
    }

    /// Creates the device.
    pub fn new(alias: String, invert: bool) -> (device: Self)
        ensures
            device.wf(),
            device.invert == invert,
            device.core@ == seq![PortView::fresh(InputValueType::Binary)],
            device.core.alias_text() == alias@,
    {
        let core = DeviceReadCore::uniform(alias, InputValueType::Binary, 1);
        assert(core@ =~= seq![PortView::fresh(InputValueType::Binary)]);
        Gpio { core, invert }
    }

    /// Takes over the level that was read from the pin, inverted if that is configured.
    pub fn handle_level(&mut self, high: bool, ts: Timestamp)
        requires
            old(self).wf(),
        ensures
            final(self).wf(),
            final(self).core.alias_text() == old(self).core.alias_text(),
            final(self).invert == old(self).invert,
            final(self).core@ == seq![
                old(self).core@[0].updated(
                    ts,
                    Ok(InputValue::Binary(high != old(self).invert)),
                    false,
                    false,
                ),
            ],
    {
        self.core.update_value_and_generate_events(
            ts,
            0,
            Ok(InputValue::Binary(high != self.invert)),
            false,
            false,
        );
        assert(self.core@ =~= seq![
            old(self).core@[0].updated(
                ts,
                Ok(InputValue::Binary(high != old(self).invert)),
                false,
                false,
            ),
        ]);
    }

    /// The generic alias of a port.
    pub fn port_alias(port: u8) -> (result: Result<String, String>)
        ensures
            match result {
                Ok(alias) => port < 1 && alias@ == "pin"@,
                Err(message) => port >= 1 && message@ == "GPIO has one port only"@,
            },
    {
        if port < 1 {
            Ok("pin".to_owned())
        } else {
            Err("GPIO has one port only".to_owned())
        }
    }

    /// Starts to listen to the port.
    pub fn get_input_port(&mut self, port: u8) -> (result: Result<InputValueType, String>)
        requires
            old(self).wf(),
            port < 1 ==> old(self).core@[port as int].events is None,
        ensures
            final(self).wf(),
            final(self).invert == old(self).invert,
            final(self).core.alias_text() == old(self).core.alias_text(),
            port < 1 ==> {
                &&& result == Ok::<InputValueType, String>(old(self).core@[port as int].value_type)
                &&& final(self).core@ == old(self).core@.update(
                    port as int,
                    old(self).core@[port as int].listened_to(),
                )
            },
            port >= 1 ==> {
                &&& outcome(result) == Err::<InputValueType, Seq<char>>("GPIO has one port only"@)
                &&& final(self).core == old(self).core
            },
    {
        if port >= 1 {
            return Err("GPIO has one port only".to_owned());
        }
        self.core.get_input_port(port)
    }
}

} // verus!
