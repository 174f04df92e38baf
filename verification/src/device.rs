//! Hardware devices of all kinds, behind one interface.
//!
//! A hardware device has ports. Inputs yield values, outputs can be set. Each port can be listened
//! to once.
use vstd::prelude::*;

use crate::bme280::BME280;
use crate::config::ValueScaling;
use crate::device_core::{retrieved, DeviceRWCore, PortView};
use crate::dht22::DHT22;
use crate::dht22_expander::DHT22Expander;
use crate::ds18::DS18;
use crate::fan_heater::FanHeater;
use crate::gpio::Gpio;
use crate::mcp23017::{compute_port_alias, MCP23017};
use crate::mcp23017_input::MCP23017Input;
use crate::pca9685::PCA9685;
use crate::text::{decimal, law_decimal_is_injective};
use crate::value::{outcome, Event, InputValueType, OutputValue};

verus! {

/// A hardware device.
#[derive(Debug)]
pub enum DeviceType {
    DHT22(DHT22),
    DHT22Expander(DHT22Expander),
    PCA9685(PCA9685),
    DS18(DS18),
    MCP23017Input(MCP23017Input),
    MCP23017(MCP23017),
    BME280(BME280),
    Gpio(Gpio),
    FanHeater(FanHeater),
}

/// The kind of a hardware device.
#[derive(Clone, Copy, Debug, PartialEq, Eq, Structural)]
pub enum DeviceKind {
    DHT22,
    DHT22Expander,
    PCA9685,
    /// A PCA9685 that is updated together with the others on its bus.
    PCA9685Synchronized,
    DS18,
    MCP23017Input,
    MCP23017,
    BME280,
    Gpio,
    FanHeater,
}

/// The kind of a hardware device as the API shows it.
#[derive(Clone, Copy, Debug, PartialEq, Eq, Structural)]
pub enum PublicDeviceType {
    DHT22,
    DHT22Expander,
    PCA9685,
    DS18,
    MCP23017,
    BME280,
    GPIO,
    FanHeater,
}

/// What a device was created with. It stays when ports are mapped, set or listened to.
pub struct SetupView {
    /// The alias of the device. The fan and heater boards hold it twice.
    pub aliases: Seq<Seq<char>>,
    /// Whether the pin is inverted.
    pub invert: bool,
    /// When buttons were pressed.
    pub down: Seq<u64>,
    /// For how long buttons are known to be held.
    pub down_secs: Seq<u64>,
}

impl SetupView {
    /// A device that has nothing but an alias.
    pub open spec fn plain(alias: Seq<char>) -> SetupView {
        SetupView {
            aliases: seq![alias],
            invert: false,
            down: Seq::empty(),
            down_secs: Seq::empty(),
        }
    }
}

/// The generic alias of a port of a DHT22 expander.
pub open spec fn dht_port_alias(port: u8) -> Seq<char> {
    "dht-"@ + decimal((port / 2) as nat) + (if port % 2 == 0 {
        "-temperature"@
    } else {
        "-humidity"@
    })
}

/// The generic alias of a port of an MCP23017.
pub open spec fn mcp_port_alias(port: u8) -> Seq<char> {
    (if port < 8 {
        "a-"@
    } else {
        "b-"@
    }) + decimal((port % 8) as nat)
}

impl DeviceKind {
    /// How many ports there are, inputs and outputs together.
    pub open spec fn port_count(self) -> int {
        match self {
            DeviceKind::DHT22 => 2,
            DeviceKind::DHT22Expander => 32,
            DeviceKind::PCA9685 => 16,
            DeviceKind::PCA9685Synchronized => 16,
            DeviceKind::DS18 => 1,
            DeviceKind::MCP23017Input => 16,
            DeviceKind::MCP23017 => 16,
            DeviceKind::BME280 => 3,
            DeviceKind::Gpio => 1,
            DeviceKind::FanHeater => 7,
        }
    }

    /// What is said of a port that does not exist.
    pub open spec fn no_such_port(self) -> Seq<char> {
        match self {
            DeviceKind::DHT22 => "DHT22 has two ports: temperature and humidity"@,
            DeviceKind::DHT22Expander =>
                "DHT22Expander has 32 ports: 16 groups of temperature and humidity"@,
            DeviceKind::PCA9685 => "PCA9685 has 16 ports only"@,
            DeviceKind::PCA9685Synchronized => "invalid port number"@,
            DeviceKind::DS18 => "DS18 has only one port"@,
            DeviceKind::MCP23017Input => "MCP23017 has 16 ports only"@,
            DeviceKind::MCP23017 => "MCP23017 has 16 ports only"@,
            DeviceKind::BME280 => "BME280 has three ports: temperature, humidity, and pressure"@,
            DeviceKind::Gpio => "GPIO has one port only"@,
            DeviceKind::FanHeater => "Fan/Heater boards have 7 ports"@,
        }
    }

    /// The generic alias of a port that exists.
    pub open spec fn generic_alias(self, port: u8) -> Seq<char> {
        match self {
            DeviceKind::DHT22 => if port == 0 {
                "temperature"@
            } else {
                "humidity"@
            },
            DeviceKind::DHT22Expander => dht_port_alias(port),
            DeviceKind::PCA9685 => "port-"@ + decimal(port as nat),
            DeviceKind::PCA9685Synchronized => "port-"@ + decimal(port as nat),
            DeviceKind::DS18 => "temperature"@,
            DeviceKind::MCP23017Input => mcp_port_alias(port),
            DeviceKind::MCP23017 => mcp_port_alias(port),
            DeviceKind::BME280 => if port == 0 {
                "temperature"@
            } else if port == 1 {
                "humidity"@
            } else {
                "pressure"@
            },
            DeviceKind::Gpio => "pin"@,
            DeviceKind::FanHeater => FanHeater::port_name(port as int),
        }
    }

    /// Whether the device is a PCA9685, synchronized or not.
    pub open spec fn is_pca(self) -> bool {
        self is PCA9685 || self is PCA9685Synchronized
    }

    /// Whether the device has inputs.
    pub open spec fn has_inputs(self) -> bool {
        !self.is_pca() && !(self is MCP23017)
    }

    /// Whether the device has outputs.
    pub open spec fn has_outputs(self) -> bool {
        self.is_pca() || self is MCP23017 || self is FanHeater
    }

    /// The number of the first input. The fan and heater boards have their inputs behind their
    /// outputs.
    pub open spec fn first_input(self) -> int {
        if self is FanHeater {
            5
        } else {
            0
        }
    }

    /// Whether a port that exists is an input.
    pub open spec fn is_input(self, port: u8) -> bool {
        self.has_inputs() && self.first_input() <= port < self.port_count()
    }

    /// Whether a port that exists is an output.
    pub open spec fn is_output(self, port: u8) -> bool {
        self.has_outputs() && port < (if self is FanHeater {
            5
        } else {
            16int
        })
    }

    /// What is said of an output that is to be listened to as if it were an input. This can happen
    /// only with the fan and heater boards, which have both.
    pub open spec fn no_input() -> Seq<char> {
        "Fan/Heater boards have two readonly ports: 5=>fan-i2c-disabled, 6=>heater-disabled"@
    }

    /// What is said of an input that is to be listened to as if it were an output.
    pub open spec fn no_output() -> Seq<char> {
        "Fan/Heater boards have 5 I/O ports"@
    }
}

impl DeviceType {
    /// The kind of the device.
    pub open spec fn kind(self) -> DeviceKind {
        match self {
            DeviceType::DHT22(_) => DeviceKind::DHT22,
            DeviceType::DHT22Expander(_) => DeviceKind::DHT22Expander,
            DeviceType::PCA9685(device) => if device.synchronized {
                DeviceKind::PCA9685Synchronized
            } else {
                DeviceKind::PCA9685
            },
            DeviceType::DS18(_) => DeviceKind::DS18,
            DeviceType::MCP23017Input(_) => DeviceKind::MCP23017Input,
            DeviceType::MCP23017(_) => DeviceKind::MCP23017,
            DeviceType::BME280(_) => DeviceKind::BME280,
            DeviceType::Gpio(_) => DeviceKind::Gpio,
            DeviceType::FanHeater(_) => DeviceKind::FanHeater,
        }
    }

    /// The device has all its ports.
    pub open spec fn wf(self) -> bool {
        match self {
            DeviceType::DHT22(device) => device.wf(),
            DeviceType::DHT22Expander(device) => device.wf(),
            DeviceType::PCA9685(device) => device.wf(),
            DeviceType::DS18(device) => device.wf(),
            DeviceType::MCP23017Input(device) => device.wf(),
            DeviceType::MCP23017(device) => device.wf(),
            DeviceType::BME280(device) => device.wf(),
            DeviceType::Gpio(device) => device.wf(),
            DeviceType::FanHeater(device) => device.wf(),
        }
    }

    /// The inputs of the device.
    pub open spec fn inputs(self) -> Seq<PortView> {
        match self {
            DeviceType::DHT22(device) => device.core@,
            DeviceType::DHT22Expander(device) => device.core@,
            DeviceType::PCA9685(_) => Seq::empty(),
            DeviceType::DS18(device) => device.core@,
            DeviceType::MCP23017Input(device) => device.core@,
            DeviceType::MCP23017(_) => Seq::empty(),
            DeviceType::BME280(device) => device.core@,
            DeviceType::Gpio(device) => device.core@,
            DeviceType::FanHeater(device) => device.read_core@,
        }
    }

    /// What holds the outputs of the device, if it has any.
    pub open spec fn outputs(self) -> Option<DeviceRWCore> {
        match self {
            DeviceType::PCA9685(device) => Some(device.core),
            DeviceType::MCP23017(device) => Some(device.core),
            DeviceType::FanHeater(device) => Some(device.core),
            _ => None,
        }
    }

    /// The outputs of the device.
    pub open spec fn output_ports(self) -> Seq<PortView> {
        match self.outputs() {
            Some(core) => core.read_core@,
            None => Seq::empty(),
        }
    }

    /// What the device was created with.
    pub open spec fn setup(self) -> SetupView {
        match self {
            DeviceType::DHT22(device) => SetupView::plain(device.core.alias_text()),
            DeviceType::DHT22Expander(device) => SetupView::plain(device.core.alias_text()),
            DeviceType::PCA9685(device) => SetupView::plain(device.core.read_core.alias_text()),
            DeviceType::DS18(device) => SetupView::plain(device.core.alias_text()),
            DeviceType::MCP23017Input(device) => SetupView {
                down: device.down@,
                down_secs: device.down_secs@,
                ..SetupView::plain(device.core.alias_text())
            },
            DeviceType::MCP23017(device) => SetupView::plain(device.core.read_core.alias_text()),
            DeviceType::BME280(device) => SetupView::plain(device.core.alias_text()),
            DeviceType::Gpio(device) => SetupView {
                invert: device.invert,
                ..SetupView::plain(device.core.alias_text())
            },
            DeviceType::FanHeater(device) => SetupView {
                aliases: seq![
                    device.core.read_core.alias_text(),
                    device.read_core.alias_text(),
                ],
                ..SetupView::plain(device.read_core.alias_text())
            },
        }
    }

    /// Whether two devices are of one kind and have the same setup.
    pub open spec fn same_setup(self, other: DeviceType) -> bool {
        self.kind() == other.kind() && self.setup() == other.setup()
    }

    /// The error of an update that failed, if it was not retrieved yet.
    pub open spec fn kept_error(self) -> Option<Seq<char>> {
        match self.outputs() {
            Some(core) => core.error_text(),
            None => None,
        }
    }

    /// Whether two devices have the same outputs, with the same values.
    pub open spec fn same_outputs(self, other: DeviceType) -> bool {
        match (self.outputs(), other.outputs()) {
            (Some(a), Some(b)) => {
                &&& a.read_core@ == b.read_core@
                &&& a.buffered_values@ == b.buffered_values@
                &&& a.scalings@ == b.scalings@
                &&& a.dirty == b.dirty
                &&& a.error_text() == b.error_text()
            },
            (None, None) => true,
            _ => false,
        }
    }

    /// The kind of the device as the API shows it.
    pub open spec fn public_type(self) -> PublicDeviceType {
        match self.kind() {
            DeviceKind::DHT22 => PublicDeviceType::DHT22,
            DeviceKind::DHT22Expander => PublicDeviceType::DHT22Expander,
            DeviceKind::PCA9685 => PublicDeviceType::PCA9685,
            DeviceKind::PCA9685Synchronized => PublicDeviceType::PCA9685,
            DeviceKind::DS18 => PublicDeviceType::DS18,
            DeviceKind::MCP23017Input => PublicDeviceType::MCP23017,
            DeviceKind::MCP23017 => PublicDeviceType::MCP23017,
            DeviceKind::BME280 => PublicDeviceType::BME280,
            DeviceKind::Gpio => PublicDeviceType::GPIO,
            DeviceKind::FanHeater => PublicDeviceType::FanHeater,
        }
    }

    /// Nobody listens to any input.
    pub open spec fn inputs_unlistened(self) -> bool {
        forall|i: int|
            0 <= i < self.inputs().len() ==> (#[trigger] self.inputs()[i]).events is None
    }

    /// Nobody listens to any output.
    pub open spec fn outputs_unlistened(self) -> bool {
        forall|i: int|
            0 <= i < self.output_ports().len() ==> (#[trigger] self.output_ports()[i]).events
                is None
    }

    /// The kind of the device as the API shows it.
    pub fn to_alloy_device_type(&self) -> (public: PublicDeviceType)
        ensures
            public == self.public_type(),
    {
        match self {
            DeviceType::DHT22(_) => PublicDeviceType::DHT22,
            DeviceType::DHT22Expander(_) => PublicDeviceType::DHT22Expander,
            DeviceType::PCA9685(_) => PublicDeviceType::PCA9685,
            DeviceType::DS18(_) => PublicDeviceType::DS18,
            DeviceType::MCP23017Input(_) => PublicDeviceType::MCP23017,
            DeviceType::MCP23017(_) => PublicDeviceType::MCP23017,
            DeviceType::BME280(_) => PublicDeviceType::BME280,
            DeviceType::Gpio(_) => PublicDeviceType::GPIO,
            DeviceType::FanHeater(_) => PublicDeviceType::FanHeater,
        }
    }

    /// The generic alias of a port.
    pub fn port_alias(&self, port: u8) -> (result: Result<String, String>)
        requires
            self.wf(),
        ensures
            match result {
                Ok(alias) => port < self.kind().port_count() && alias@
                    == self.kind().generic_alias(port),
                Err(message) => port >= self.kind().port_count() && message@
                    == self.kind().no_such_port(),
            },
    {
        match self {
            DeviceType::DHT22(_) => DHT22::port_alias(port),
            DeviceType::DHT22Expander(_) => DHT22Expander::port_alias(port),
            DeviceType::PCA9685(device) => device.port_alias(port),
            DeviceType::DS18(_) => DS18::port_alias(port),
            DeviceType::MCP23017Input(_) => compute_port_alias(port),
            DeviceType::MCP23017(_) => compute_port_alias(port),
            DeviceType::BME280(_) => BME280::port_alias(port),
            DeviceType::Gpio(_) => Gpio::port_alias(port),
            DeviceType::FanHeater(_) => FanHeater::port_alias(port),
        }
    }

    /// Whether the device has inputs, and whether it has outputs.
    pub fn directions(&self) -> (directions: (bool, bool))
        ensures
            directions.0 == self.kind().has_inputs(),
            directions.1 == self.kind().has_outputs(),
    {
        match self {
            DeviceType::PCA9685(_) => (false, true),
            DeviceType::MCP23017(_) => (false, true),
            DeviceType::FanHeater(_) => (true, true),
            _ => (true, false),
        }
    }

    /// Where a port that is an input has its place among the inputs.
    pub fn input_index(&self, port: u8) -> (index: usize)
        requires
            self.wf(),
            self.kind().is_input(port),
        ensures
            index == port - self.kind().first_input(),
            index < self.inputs().len(),
    {
        match self {
            DeviceType::FanHeater(_) => port as usize - 5,
            _ => port as usize,
        }
    }

    /// Starts to listen to an input that exists.
    pub fn get_input_port(&mut self, port: u8) -> (result: Result<InputValueType, String>)
        requires
            old(self).wf(),
            old(self).kind().has_inputs(),
            port < old(self).kind().port_count(),
            old(self).kind().is_input(port) ==> old(self).inputs()[port - old(
                self,
            ).kind().first_input()].events is None,
        ensures
            final(self).wf(),
            final(self).same_setup(*old(self)),
            final(self).same_outputs(*old(self)),
            old(self).kind().is_input(port) ==> {
                let index = port - old(self).kind().first_input();
                &&& result == Ok::<InputValueType, String>(old(self).inputs()[index].value_type)
                &&& final(self).inputs() == old(self).inputs().update(
                    index,
                    old(self).inputs()[index].listened_to(),
                )
            },
            !old(self).kind().is_input(port) ==> {
                &&& outcome(result) == Err::<InputValueType, Seq<char>>(DeviceKind::no_input())
                &&& final(self).inputs() == old(self).inputs()
            },
    {
        match self {
            DeviceType::DHT22(device) => device.get_input_port(port),
            DeviceType::DHT22Expander(device) => device.get_input_port(port),
            DeviceType::DS18(device) => device.get_input_port(port),
            DeviceType::MCP23017Input(device) => device.get_input_port(port),
            DeviceType::BME280(device) => device.get_input_port(port),
            DeviceType::Gpio(device) => device.get_input_port(port),
            DeviceType::FanHeater(device) => device.get_input_port(port),
            _ => Err("no inputs".to_owned()),
        }
    }

    /// Starts to listen to an output that exists, and sets its scaling, if one is given.
    pub fn get_output_port(&mut self, port: u8, scaling: Option<ValueScaling>) -> (result: Result<
        (),
        String,
    >)
        requires
            old(self).wf(),
            old(self).kind().has_outputs(),
            port < old(self).kind().port_count(),
            old(self).kind().is_output(port) ==> old(self).output_ports()[port as int].events
                is None,
        ensures
            final(self).wf(),
            final(self).same_setup(*old(self)),
            final(self).inputs() == old(self).inputs(),
            final(self).outputs()->0.buffered_values@ == old(self).outputs()->0.buffered_values@,
            final(self).outputs()->0.dirty == old(self).outputs()->0.dirty,
            final(self).kept_error() == old(self).kept_error(),
            old(self).kind().is_output(port) ==> {
                &&& result is Ok
                &&& final(self).output_ports() == old(self).output_ports().update(
                    port as int,
                    old(self).output_ports()[port as int].listened_to(),
                )
                &&& final(self).outputs()->0.scalings@ == (match scaling {
                    Some(s) => old(self).outputs()->0.scalings@.update(port as int, s),
                    None => old(self).outputs()->0.scalings@,
                })
            },
            !old(self).kind().is_output(port) ==> {
                &&& outcome(result) == Err::<(), Seq<char>>(DeviceKind::no_output())
                &&& final(self).output_ports() == old(self).output_ports()
                &&& final(self).outputs()->0.scalings@ == old(self).outputs()->0.scalings@
            },
    {
        match self {
            DeviceType::PCA9685(device) => device.get_output_port(port, scaling),
            DeviceType::MCP23017(device) => device.get_output_port(port, scaling),
            DeviceType::FanHeater(device) => device.get_output_port(port, scaling),
            _ => Err("no outputs".to_owned()),
        }
    }

    /// Sets the _buffered_ value of an output. It is written to the hardware only once the device
    /// updates.
    pub fn set_output(&mut self, port: u8, value: OutputValue)
        requires
            old(self).wf(),
            old(self).kind().is_output(port),
        ensures
            final(self).wf(),
            final(self).same_setup(*old(self)),
            final(self).inputs() == old(self).inputs(),
            final(self).output_ports() == old(self).output_ports(),
            final(self).outputs()->0.scalings@ == old(self).outputs()->0.scalings@,
            final(self).kept_error() == old(self).kept_error(),
            final(self).outputs()->0.buffered_values@ == old(
                self,
            ).outputs()->0.buffered_values@.update(port as int, value),
            final(self).outputs()->0.dirty == (old(self).outputs()->0.dirty || value != old(
                self,
            ).outputs()->0.buffered_values@[port as int]),
    {
        match self {
            DeviceType::PCA9685(device) => device.core.set(port as usize, value),
            DeviceType::MCP23017(device) => device.core.set(port as usize, value),
            DeviceType::FanHeater(device) => device.core.set(port as usize, value),
            _ => {},
        }
    }

    /// Tells whether an update has to be triggered to bring new values to the hardware, and
    /// retrieves the error of previous updates. Some devices update at regular intervals anyway.
    pub fn update(&mut self) -> (r: (bool, Result<(), String>))
        requires
            old(self).wf(),
        ensures
            final(self).wf(),
            final(self).same_setup(*old(self)),
            final(self).inputs() == old(self).inputs(),
            r.0 == (old(self).kind() is MCP23017 && old(self).outputs()->0.dirty),
            outcome(r.1) == retrieved(old(self).kept_error()),
            final(self).kept_error() is None,
            final(self).output_ports() == old(self).output_ports(),
            old(self).kind().has_outputs() ==> {
                let before = old(self).outputs()->0;
                let after = final(self).outputs()->0;
                &&& after.buffered_values@ == before.buffered_values@
                &&& after.scalings@ == before.scalings@
                &&& after.dirty == before.dirty
            },
    {
        match self {
            DeviceType::MCP23017(device) => device.update(),
            DeviceType::PCA9685(device) => (false, device.update()),
            DeviceType::FanHeater(device) => (false, device.update()),
            _ => (false, Ok(())),
        }
    }

    /// Picks up the oldest event of an input.
    pub fn poll_input(&mut self, index: usize) -> (event: Option<Event>)
        requires
            old(self).wf(),
            index < old(self).inputs().len(),
            old(self).inputs()[index as int].events is Some,
        ensures
            final(self).wf(),
            final(self).same_setup(*old(self)),
            final(self).same_outputs(*old(self)),
            final(self).inputs() == old(self).inputs().update(
                index as int,
                old(self).inputs()[index as int].polled(),
            ),
            ({
                let queue = old(self).inputs()[index as int].events->0;
                match event {
                    Some(e) => queue.len() > 0 && e@ == queue[0],
                    None => queue.len() == 0,
                }
            }),
    {
        match self {
            DeviceType::DHT22(device) => device.core.poll_events(index),
            DeviceType::DHT22Expander(device) => device.core.poll_events(index),
            DeviceType::DS18(device) => device.core.poll_events(index),
            DeviceType::MCP23017Input(device) => device.core.poll_events(index),
            DeviceType::BME280(device) => device.core.poll_events(index),
            DeviceType::Gpio(device) => device.core.poll_events(index),
            DeviceType::FanHeater(device) => device.read_core.poll_events(index),
            _ => None,
        }
    }

    /// Picks up the oldest event of an output.
    pub fn poll_output(&mut self, index: usize) -> (event: Option<Event>)
        requires
            old(self).wf(),
            index < old(self).output_ports().len(),
            old(self).output_ports()[index as int].events is Some,
        ensures
            final(self).wf(),
            final(self).same_setup(*old(self)),
            final(self).inputs() == old(self).inputs(),
            final(self).outputs()->0.buffered_values@ == old(self).outputs()->0.buffered_values@,
            final(self).outputs()->0.scalings@ == old(self).outputs()->0.scalings@,
            final(self).outputs()->0.dirty == old(self).outputs()->0.dirty,
            final(self).kept_error() == old(self).kept_error(),
            final(self).output_ports() == old(self).output_ports().update(
                index as int,
                old(self).output_ports()[index as int].polled(),
            ),
            ({
                let queue = old(self).output_ports()[index as int].events->0;
                match event {
                    Some(e) => queue.len() > 0 && e@ == queue[0],
                    None => queue.len() == 0,
                }
            }),
    {
        match self {
            DeviceType::PCA9685(device) => device.core.read_core.poll_events(index),
            DeviceType::MCP23017(device) => device.core.read_core.poll_events(index),
            DeviceType::FanHeater(device) => device.core.read_core.poll_events(index),
            _ => None,
        }
    }
}

/// Every port of a device goes in exactly one direction, and ports behind the last one go in none.
/// The expanders for outputs and the PCA9685 have sixteen outputs each. The fan and heater boards
/// have five outputs, and two inputs behind them. All other devices have inputs only: one if they
/// have a single sensor or pin, one for each quantity they measure, or sixteen buttons.
pub proof fn law_every_port_has_one_direction(kind: DeviceKind, port: u8)
    ensures
        port < kind.port_count() <==> (kind.is_input(port) || kind.is_output(port)),
        !(kind.is_input(port) && kind.is_output(port)),
        kind is PCA9685 || kind is PCA9685Synchronized || kind is MCP23017 ==> (kind.is_output(port)
            <==> port < 16),
        kind is FanHeater ==> (kind.is_output(port) <==> port < 5),
        kind is FanHeater ==> (kind.is_input(port) <==> port == 5 || port == 6),
        kind is DS18 || kind is Gpio ==> (kind.is_input(port) <==> port == 0),
        kind is DHT22 ==> (kind.is_input(port) <==> port <= 1),
        kind is BME280 ==> (kind.is_input(port) <==> port <= 2),
        kind is MCP23017Input ==> (kind.is_input(port) <==> port <= 15),
        kind is DHT22Expander ==> (kind.is_input(port) <==> port <= 31),
        kind.has_inputs() <==> exists|p: u8| kind.is_input(p),
        kind.has_outputs() <==> exists|p: u8| kind.is_output(p),
{
    assert(kind.has_inputs() ==> kind.is_input(kind.first_input() as u8));
    assert(kind.has_outputs() ==> kind.is_output(0));
}

proof fn lemma_behind_prefix(prefix: Seq<char>, m: nat, n: nat)
    ensures
        prefix + decimal(m) == prefix + decimal(n) ==> m == n,
{
    if prefix + decimal(m) == prefix + decimal(n) {
        let (a, b) = (prefix + decimal(m), prefix + decimal(n));
        assert(a.skip(prefix.len() as int) =~= decimal(m));
        assert(b.skip(prefix.len() as int) =~= decimal(n));
        law_decimal_is_injective(m, n);
    }
}

/// The ports of a device have different generic aliases.
pub proof fn law_generic_aliases_are_distinct(kind: DeviceKind, p: u8, q: u8)
    requires
        p < q < kind.port_count(),
    ensures
        kind.generic_alias(p) != kind.generic_alias(q),
{
    let (a, b) = (kind.generic_alias(p), kind.generic_alias(q));
    reveal_strlit("temperature");
    reveal_strlit("humidity");
    reveal_strlit("pressure");
    match kind {
        DeviceKind::DHT22Expander => {
            reveal_strlit("dht-");
            reveal_strlit("-temperature");
            reveal_strlit("-humidity");
            let (m, n) = ((p / 2) as nat, (q / 2) as nat);
            if a == b {
                assert(a.last() == (if p % 2 == 0 {
                    'e'
                } else {
                    'y'
                }));
                assert(b.last() == (if q % 2 == 0 {
                    'e'
                } else {
                    'y'
                }));
                assert(p % 2 == q % 2);
                let ending = if p % 2 == 0 {
                    "-temperature"@
                } else {
                    "-humidity"@
                };
                assert(a.take(a.len() - ending.len()) =~= "dht-"@ + decimal(m));
                assert(b.take(b.len() - ending.len()) =~= "dht-"@ + decimal(n));
                lemma_behind_prefix("dht-"@, m, n);
            }
        },
        DeviceKind::MCP23017 | DeviceKind::MCP23017Input => {
            reveal_strlit("a-");
            reveal_strlit("b-");
            assert(a[0] == (if p < 8 {
                'a'
            } else {
                'b'
            }));
            assert(b[0] == (if q < 8 {
                'a'
            } else {
                'b'
            }));
            lemma_behind_prefix("a-"@, (p % 8) as nat, (q % 8) as nat);
            lemma_behind_prefix("b-"@, (p % 8) as nat, (q % 8) as nat);
        },
        DeviceKind::PCA9685 | DeviceKind::PCA9685Synchronized => {
            lemma_behind_prefix("port-"@, p as nat, q as nat);
        },
        DeviceKind::FanHeater => {
            reveal_strlit("fan-in-level");
            reveal_strlit("fan-out-level");
            reveal_strlit("heater-level");
            reveal_strlit("heater-relay-1");
            reveal_strlit("heater-relay-2");
            reveal_strlit("fan-i2c-disabled");
            reveal_strlit("heater-disabled");
            assert(a == FanHeater::port_name(p as int) && b == FanHeater::port_name(q as int));
            if p == 0 && q == 2 {
                assert(a[0] != b[0]);
            } else if p == 3 && q == 4 {
                assert(a[13] != b[13]);
            } else {
                assert(a.len() != b.len());
            }
        },
        _ => {
            assert(a[0] != b[0]);
        },
    }
}

/// Devices are shown as what they are. Both uses of an MCP23017 are shown alike, and so are
/// synchronized and other PCA9685.
pub proof fn law_devices_are_shown(device: DeviceType)
    ensures
        device is DHT22 <==> device.public_type() == PublicDeviceType::DHT22,
        device is DHT22Expander <==> device.public_type() == PublicDeviceType::DHT22Expander,
        device is PCA9685 <==> device.public_type() == PublicDeviceType::PCA9685,
        device is DS18 <==> device.public_type() == PublicDeviceType::DS18,
        (device is MCP23017 || device is MCP23017Input) <==> device.public_type()
            == PublicDeviceType::MCP23017,
        device is BME280 <==> device.public_type() == PublicDeviceType::BME280,
        device is Gpio <==> device.public_type() == PublicDeviceType::GPIO,
        device is FanHeater <==> device.public_type() == PublicDeviceType::FanHeater,
{
}

} // verus!
