//! The MCP23017 port expander, used for sixteen buttons.
use vstd::prelude::*;

use crate::bits::lemma_word_mask;
use crate::buttons::{
    button_port, button_press, join_pins, lemma_joined_digits, pin_set, update_buttons, PressView,
};
use crate::device_core::{all_updated, DeviceReadCore, PortView};
use crate::mcp23017::MCP23017Config;
use crate::value::{outcome, InputValueType, Timestamp};

verus! {

/// Configuration for the expander.
#[derive(Debug)]
pub struct MCP23017InputConfig {
    pub i2c_bus: String,
    pub i2c_slave_address: u8,
    pub polling_interval_millis: u64,
    pub enable_pullups: bool,
    pub invert: bool,
}

/// A command of the driver.
#[derive(Clone, Copy, Debug, PartialEq, Eq, Structural)]
pub enum InputCommand {
    /// Sets whether a pin has a pull-up resistor.
    PullUp { pin: u8, enabled: bool },
    /// Sets whether a pin is inverted.
    InvertPolarity { pin: u8, inverted: bool },
    /// Makes all pins inputs.
    AllInputs,
}

/// The commands that set up the expander, in their order.
pub open spec fn input_commands(config: MCP23017InputConfig) -> Seq<InputCommand> {
    Seq::new(
        33,
        |i: int|
            if i < 16 {
                InputCommand::PullUp { pin: i as u8, enabled: config.enable_pullups }
            } else if i < 32 {
                InputCommand::InvertPolarity { pin: (i - 16) as u8, inverted: config.invert }
            } else {
                InputCommand::AllInputs
            },
    )
}

/// The commands that set up the expander: first those for the pull-up resistors of all pins, then
/// those for their polarity, and at last the one that makes the pins inputs.
pub fn set_up_inputs(config: &MCP23017InputConfig) -> (commands: Vec<InputCommand>)
    ensures
        commands@ == input_commands(*config),
{
    let mut commands: Vec<InputCommand> = Vec::new();
    let mut pin: u8 = 0;
    while pin < 16
        invariant
            pin <= 16,
            commands@ == input_commands(*config).take(pin as int),
        decreases 16 - pin,
    {
        commands.push(InputCommand::PullUp { pin, enabled: config.enable_pullups });
        pin += 1;
        assert(commands@ =~= input_commands(*config).take(pin as int));
    }
    let mut pin: u8 = 0;
    while pin < 16
        invariant
            pin <= 16,
            commands@ == input_commands(*config).take(16 + pin),
        decreases 16 - pin,
    {
        commands.push(InputCommand::InvertPolarity { pin, inverted: config.invert });
        pin += 1;
        assert(commands@ =~= input_commands(*config).take(16 + pin));
    }
    commands.push(InputCommand::AllInputs);
    assert(commands@ =~= input_commands(*config));
    commands
}

/// What a readout led to.
#[derive(Clone, Copy, Debug, PartialEq, Eq, Structural)]
pub enum InputOutcome {
    /// The buttons were read.
    Success,
    /// All pins were set, which is ignored.
    SuspiciousValue,
    /// The expander could not be read.
    I2cError,
}

/// Whether a button is pressed. The expander sends the pins of its second half first.
pub open spec fn input_pressed(vals: u16, button: int) -> bool {
    if button < 8 {
        pin_set(vals, button + 8)
    } else {
        pin_set(vals, button - 8)
    }
}

/// Swaps the two bytes of a readout.
pub fn swap_bytes(vals: u16) -> (swapped: u16)
    ensures
        swapped == vals % 256 * 256 + vals / 256,
        forall|i: int| 0 <= i < 16 ==> #[trigger] pin_set(swapped, i) == input_pressed(vals, i),
{
    let high: u8 = ((vals >> 8u16) & 0xff) as u8;
    let low: u8 = (vals & 0xff) as u8;
    let swapped: u16 = join_pins(low, high);
    proof {
        let (h, l) = (high as u16, low as u16);
        assert(h == vals / 256 && l == vals % 256 && vals == (h << 8u16) | l) by (bit_vector)
            requires
                h == ((vals >> 8u16) & 0xff) as u8,
                l == (vals & 0xff) as u8,
        ;
        lemma_joined_digits(h, l, vals);
        assert forall|i: int| 0 <= i < 16 implies #[trigger] pin_set(swapped, i) == input_pressed(
            vals,
            i,
        ) by {}
    }
    swapped
}

/// The expander as a device.
#[derive(Debug)]
pub struct MCP23017Input {
    pub core: DeviceReadCore,
    pub down: [u64; 16],
    pub down_secs: [u64; 16],
}

impl MCP23017Input {
    /// The device has all its ports.
    pub open spec fn wf(&self) -> bool {
        self.core@.len() == 16
    }

    /// Checks a configuration, and yields the address of the expander.
    pub fn check_config(config: &MCP23017InputConfig) -> (result: Result<u8, String>)
        ensures
            outcome(result) == (if !(32 <= config.i2c_slave_address <= 39) {
                Err("invalid address"@)
            } else if config.polling_interval_millis == 0 {
                Err("polling interval must be greater than zero"@)
            } else {
                Ok(config.i2c_slave_address)
            }),
    {
        match MCP23017Config::slave_address(config.i2c_slave_address) {
            Err(message) => Err(message),
            Ok(address) => if config.polling_interval_millis == 0 {
                Err("polling interval must be greater than zero".to_owned())
            } else {
                Ok(address)
            },
        }
    }

    /// Creates the device.
    pub fn new(alias: String, now: u64) -> (device: Self)
        ensures
            device.wf(),
            device.core@ == Seq::new(16, |i: int| PortView::fresh(InputValueType::Binary)),
            device.core.alias_text() == alias@,
            device.down@ == Seq::new(16, |i: int| now),
            device.down_secs@ == Seq::new(16, |i: int| 0u64),
    {
        let device = MCP23017Input {
            core: DeviceReadCore::uniform(alias, InputValueType::Binary, 16),
            down: [now; 16],
            down_secs: [0; 16],
        };
        assert(device.down@ =~= Seq::new(16, |i: int| now));
        assert(device.down_secs@ =~= Seq::new(16, |i: int| 0u64));
        device
    }

    /// Takes over what was read from the expander. A readout in which all pins are set is
    /// ignored, such that no press of a button gets lost. After a failure the error is put on all
    /// ports.
    pub fn handle_readout(
        &mut self,
        readout: &Result<u16, String>,
        mono_ts: u64,
        real_ts: Timestamp,
    ) -> (counted: InputOutcome)
        requires
            old(self).wf(),
        ensures
            final(self).wf(),
            final(self).core.alias_text() == old(self).core.alias_text(),
            match *readout {
                Ok(vals) => if vals == 0xffff {
                    &&& counted == InputOutcome::SuspiciousValue
                    &&& *final(self) == *old(self)
                } else {
                    &&& counted == InputOutcome::Success
                    &&& final(self).core@ == Seq::new(
                        16,
                        |i: int|
                            button_port(
                                old(self).core@[i],
                                PressView {
                                    down: old(self).down@[i],
                                    down_secs: old(self).down_secs@[i],
                                },
                                input_pressed(vals, i),
                                mono_ts,
                                real_ts,
                            ),
                    )
                    &&& forall|i: int|
                        0 <= i < 16 ==> #[trigger] button_press(
                            old(self).core@[i],
                            PressView {
                                down: old(self).down@[i],
                                down_secs: old(self).down_secs@[i],
                            },
                            input_pressed(vals, i),
                            mono_ts,
                        ) == (PressView {
                            down: final(self).down@[i],
                            down_secs: final(self).down_secs@[i],
                        })
                },
                Err(message) => {
                    &&& counted == InputOutcome::I2cError
                    &&& final(self).core@ == all_updated(
                        old(self).core@,
                        real_ts,
                        Err(message@),
                        true,
                        false,
                    )
                    &&& final(self).down == old(self).down
                    &&& final(self).down_secs == old(self).down_secs
                },
            },
    {
        match readout {
            Err(message) => {
                self.core.set_error_on_all_ports(real_ts, message.as_str());
                InputOutcome::I2cError
            },
            Ok(vals) => {
                if *vals == 0xffff {
                    return InputOutcome::SuspiciousValue;
                }
                let swapped: u16 = swap_bytes(*vals);
                update_buttons(
                    &mut self.core,
                    mono_ts,
                    real_ts,
                    swapped,
                    &mut self.down,
                    &mut self.down_secs,
                );
                assert(self.core@ =~= Seq::new(
                    16,
                    |i: int|
                        button_port(
                            old(self).core@[i],
                            PressView {
                                down: old(self).down@[i],
                                down_secs: old(self).down_secs@[i],
                            },
                            input_pressed(*vals, i),
                            mono_ts,
                            real_ts,
                        ),
                ));
                assert forall|i: int| 0 <= i < 16 implies #[trigger] button_press(
                    old(self).core@[i],
                    PressView { down: old(self).down@[i], down_secs: old(self).down_secs@[i] },
                    input_pressed(*vals, i),
                    mono_ts,
                ) == (PressView { down: self.down@[i], down_secs: self.down_secs@[i] }) by {
                    assert(button_press(
                        old(self).core@[i],
                        PressView { down: old(self).down@[i], down_secs: old(self).down_secs@[i] },
                        pin_set(swapped, i),
                        mono_ts,
                    ) == (PressView { down: self.down@[i], down_secs: self.down_secs@[i] }));
                }
                InputOutcome::Success
            },
        }
    }

    /// Starts to listen to a port.
    pub fn get_input_port(&mut self, port: u8) -> (result: Result<InputValueType, String>)
        requires
            old(self).wf(),
            port < 16 ==> old(self).core@[port as int].events is None,
        ensures
            final(self).wf(),
            final(self).down == old(self).down,
            final(self).down_secs == old(self).down_secs,
            final(self).core.alias_text() == old(self).core.alias_text(),
            port < 16 ==> {
                &&& result == Ok::<InputValueType, String>(old(self).core@[port as int].value_type)
                &&& final(self).core@ == old(self).core@.update(
                    port as int,
                    old(self).core@[port as int].listened_to(),
                )
            },
            port >= 16 ==> {
                &&& outcome(result) == Err::<InputValueType, Seq<char>>(
                    "MCP23017 has 16 ports only"@,
                )
                &&& final(self).core == old(self).core
            },
    {
        if port >= 16 {
            return Err("MCP23017 has 16 ports only".to_owned());
        }
        self.core.get_input_port(port)
    }
}

/// The upper byte of a readout tells the buttons of the first half, the lower byte those of the
/// second half. The lowest bit of a byte is the first of its buttons.
pub proof fn law_halves_are_swapped(first: u8, second: u8, vals: u16, button: u16)
    requires
        vals == first * 256 + second,
        button < 16,
    ensures
        button < 8 ==> (input_pressed(vals, button as int) <==> first & (1u8 << (button as u8))
            != 0),
        button >= 8 ==> (input_pressed(vals, button as int) <==> second & (1u8 << ((button - 8) as u8))
            != 0),
{
    let (high, low) = (first as u16, second as u16);
    assert(vals == (high << 8u16) | low) by (bit_vector)
        requires
            vals == high * 256 + low,
            high < 256,
            low < 256,
    ;
    lemma_joined_digits(high, low, vals);
    let shift: u8 = if button < 8 {
        button as u8
    } else {
        (button - 8) as u8
    };
    assert(shift < 8 ==> (first & (1u8 << shift) != 0) == ((first as u16) & (1u16 << (shift as u16))
        != 0) && (second & (1u8 << shift) != 0) == ((second as u16) & (1u16 << (shift as u16)) != 0))
        by (bit_vector);
    lemma_word_mask(high, shift as u16);
    lemma_word_mask(low, shift as u16);
}

/// Every pin gets its pull-up resistor and its polarity as configured, before all pins are made
/// inputs.
pub proof fn law_every_pin_is_set_up(config: MCP23017InputConfig, pin: u8)
    requires
        pin < 16,
    ensures
        ({
            let commands = input_commands(config);
            &&& commands.len() == 33
            &&& commands[pin as int] == (InputCommand::PullUp {
                pin,
                enabled: config.enable_pullups,
            })
            &&& commands[16 + pin] == (InputCommand::InvertPolarity {
                pin,
                inverted: config.invert,
            })
            &&& commands[32] == InputCommand::AllInputs
        }),
{
}

} // verus!
