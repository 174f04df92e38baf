//! The creation of hardware devices from their configurations.
//!
//! A device is created in steps: its bus is opened, its configuration is checked, its hardware is
//! set up, and then there is a device whose ports can be mapped.
use vstd::prelude::*;

use crate::bme280::BME280;
use crate::config::{HardwareDeviceConfig, ValueScaling};
use crate::device::{DeviceKind, DeviceType, SetupView};
use crate::device_core::PortView;
use crate::dht22::DHT22;
use crate::dht22_expander::{port_type, DHT22Expander};
use crate::ds18::DS18;
use crate::fan_heater::FanHeater;
use crate::gpio::Gpio;
use crate::mapping::{outputs_of, OutputsView};
use crate::mcp23017::{MCP23017Config, MCP23017};
use crate::mcp23017_input::MCP23017Input;
use crate::pca9685::{check_config, PCA9685};
use crate::text::{lowercase, lowercase_of, same_text};
use crate::value::{outcome, InputValueType};

verus! {

/// The bus that a device is attached to.
#[derive(Debug)]
pub enum BusChoice {
    /// The device is not on an I2C bus.
    NoBus,
    /// A bus that exists in memory only, for configurations without a bus.
    Mock,
    /// The bus at a path.
    Path(String),
}

/// A bus as contracts see it.
pub enum BusView {
    NoBus,
    Mock,
    Path(Seq<char>),
}

impl View for BusChoice {
    type V = BusView;

    open spec fn view(&self) -> BusView {
        match self {
            BusChoice::NoBus => BusView::NoBus,
            BusChoice::Mock => BusView::Mock,
            BusChoice::Path(path) => BusView::Path(path@),
        }
    }
}

/// The bus with the given name.
pub open spec fn bus_named(name: Seq<char>) -> BusView {
    if name.len() == 0 {
        BusView::Mock
    } else {
        BusView::Path(name)
    }
}

/// The bus of a device. Buses of synchronized devices are named in lower case.
pub open spec fn bus_of(cfg: HardwareDeviceConfig) -> BusView {
    match cfg {
        HardwareDeviceConfig::PCA9685 { config } => bus_named(config.i2c_bus@),
        HardwareDeviceConfig::PCA9685Synchronized { config } => bus_named(
            lowercase_of(config.i2c_bus@),
        ),
        HardwareDeviceConfig::MCP23017 { config } => bus_named(config.i2c_bus@),
        HardwareDeviceConfig::BME280 { config } => bus_named(config.i2c_bus@),
        HardwareDeviceConfig::MCP23017Input { config } => bus_named(config.i2c_bus@),
        HardwareDeviceConfig::DHT22Expander { config } => bus_named(config.i2c_bus@),
        HardwareDeviceConfig::FanHeater { config } => bus_named(config.i2c_bus@),
        _ => BusView::NoBus,
    }
}

/// Chooses the bus with the given name: a mock if there is no name.
pub fn choose_bus(name: &str) -> (bus: BusChoice)
    ensures
        bus@ == bus_named(name@),
{
    proof {
        reveal_strlit("");
    }
    assert(""@ =~= Seq::<char>::empty());
    if same_text(name, "") {
        assert(name@.len() == 0);
        BusChoice::Mock
    } else {
        assert(name@.len() > 0) by {
            if name@.len() == 0 {
                assert(name@ =~= ""@);
            }
        }
        BusChoice::Path(name.to_owned())
    }
}

/// Chooses the bus of a device.
pub fn device_bus(cfg: &HardwareDeviceConfig) -> (bus: BusChoice)
    ensures
        bus@ == bus_of(*cfg),
{
    match cfg {
        HardwareDeviceConfig::PCA9685 { config } => choose_bus(config.i2c_bus.as_str()),
        HardwareDeviceConfig::PCA9685Synchronized { config } => {
            let name = lowercase(config.i2c_bus.as_str());
            choose_bus(name.as_str())
        },
        HardwareDeviceConfig::MCP23017 { config } => choose_bus(config.i2c_bus.as_str()),
        HardwareDeviceConfig::BME280 { config } => choose_bus(config.i2c_bus.as_str()),
        HardwareDeviceConfig::MCP23017Input { config } => choose_bus(config.i2c_bus.as_str()),
        HardwareDeviceConfig::DHT22Expander { config } => choose_bus(config.i2c_bus.as_str()),
        HardwareDeviceConfig::FanHeater { config } => choose_bus(config.i2c_bus.as_str()),
        _ => BusChoice::NoBus,
    }
}

/// What is wrong with a configuration. Those of synchronized devices are checked when all devices
/// of a bus are known.
pub open spec fn config_error(cfg: HardwareDeviceConfig) -> Option<Seq<char>> {
    match cfg {
        HardwareDeviceConfig::PCA9685 { config } => if !(64 <= config.i2c_slave_address <= 127) {
            Some("invalid address"@)
        } else if config.update_interval_millis == 0 {
            Some("update_interval_millis must be > 0"@)
        } else {
            None
        },
        HardwareDeviceConfig::PCA9685Synchronized { .. } => None,
        HardwareDeviceConfig::DS18 { config } => if config.readout_interval_seconds < 2 {
            Some("readout_interval_seconds must be at least 2"@)
        } else {
            None
        },
        HardwareDeviceConfig::MCP23017 { config } => if !(32 <= config.i2c_slave_address <= 39) {
            Some("invalid address"@)
        } else {
            None
        },
        HardwareDeviceConfig::BME280 { config } => if config.i2c_slave_address != 0x76
            && config.i2c_slave_address != 0x77 {
            Some("BME280 has I2C addresses 0x76 and 0x77 only"@)
        } else {
            None
        },
        HardwareDeviceConfig::MCP23017Input { config } => if !(32 <= config.i2c_slave_address
            <= 39) {
            Some("invalid address"@)
        } else if config.polling_interval_millis == 0 {
            Some("polling interval must be greater than zero"@)
        } else {
            None
        },
        HardwareDeviceConfig::DHT22 { config } => if config.readout_interval_seconds < 2 {
            Some("readout_interval_seconds must be at least 2"@)
        } else {
            None
        },
        HardwareDeviceConfig::DHT22Expander { config } => if config.readout_interval_seconds < 2 {
            Some("readout_interval_seconds must be at least 2"@)
        } else if config.i2c_slave_address != 0x3d {
            Some("invalid address"@)
        } else if config.power_cycle_every_n_readouts == Some(0u16) {
            Some(
                "power_cycle_every_n_readouts must be greater zero, or not specified to disable power cycling"@,
            )
        } else if config.power_cycle_every_n_readouts is Some
            && config.power_cycle_power_off_seconds is None {
            Some("power_cycle_power_off_seconds must be set if power cycling is enabled"@)
        } else {
            None
        },
        HardwareDeviceConfig::Gpio { config } => if config.readout_interval_milliseconds == 0 {
            Some("readout_interval_milliseconds must be > 0"@)
        } else {
            None
        },
        HardwareDeviceConfig::FanHeater { config } => if config.update_interval_seconds < 1 {
            Some("update_interval_seconds must be at least 1"@)
        } else {
            None
        },
    }
}

fn without_address(result: Result<u8, String>) -> (checked: Result<(), String>)
    ensures
        match result {
            Ok(_) => checked is Ok,
            Err(message) => outcome(checked) == Err::<(), Seq<char>>(message@),
        },
{
    match result {
        Ok(_) => Ok(()),
        Err(message) => Err(message),
    }
}

/// Checks the configuration of a device.
pub fn check_device_config(cfg: &HardwareDeviceConfig) -> (result: Result<(), String>)
    ensures
        outcome(result) == (match config_error(*cfg) {
            Some(message) => Err(message),
            None => Ok(()),
        }),
{
    match cfg {
        HardwareDeviceConfig::PCA9685 { config } => without_address(check_config(config)),
        HardwareDeviceConfig::PCA9685Synchronized { .. } => Ok(()),
        HardwareDeviceConfig::DS18 { config } => DS18::check_config(config),
        HardwareDeviceConfig::MCP23017 { config } => without_address(
            MCP23017Config::slave_address(config.i2c_slave_address),
        ),
        HardwareDeviceConfig::BME280 { config } => BME280::check_config(config),
        HardwareDeviceConfig::MCP23017Input { config } => without_address(
            MCP23017Input::check_config(config),
        ),
        HardwareDeviceConfig::DHT22 { config } => DHT22::check_config(config),
        HardwareDeviceConfig::DHT22Expander { config } => without_address(
            DHT22Expander::check_config(config),
        ),
        HardwareDeviceConfig::Gpio { config } => Gpio::check_config(config),
        HardwareDeviceConfig::FanHeater { config } => FanHeater::check_config(config),
    }
}

/// The kind of device that a configuration leads to.
pub open spec fn configured_kind(cfg: HardwareDeviceConfig) -> DeviceKind {
    match cfg {
        HardwareDeviceConfig::PCA9685 { .. } => DeviceKind::PCA9685,
        HardwareDeviceConfig::PCA9685Synchronized { .. } => DeviceKind::PCA9685Synchronized,
        HardwareDeviceConfig::DS18 { .. } => DeviceKind::DS18,
        HardwareDeviceConfig::MCP23017 { .. } => DeviceKind::MCP23017,
        HardwareDeviceConfig::BME280 { .. } => DeviceKind::BME280,
        HardwareDeviceConfig::MCP23017Input { .. } => DeviceKind::MCP23017Input,
        HardwareDeviceConfig::DHT22 { .. } => DeviceKind::DHT22,
        HardwareDeviceConfig::DHT22Expander { .. } => DeviceKind::DHT22Expander,
        HardwareDeviceConfig::Gpio { .. } => DeviceKind::Gpio,
        HardwareDeviceConfig::FanHeater { .. } => DeviceKind::FanHeater,
    }
}

/// The type of an input of a device.
pub open spec fn input_type(kind: DeviceKind, index: int) -> InputValueType {
    match kind {
        DeviceKind::DHT22 => port_type(index),
        DeviceKind::DHT22Expander => port_type(index),
        DeviceKind::DS18 => InputValueType::Temperature,
        DeviceKind::BME280 => if index == 0 {
            InputValueType::Temperature
        } else if index == 1 {
            InputValueType::Humidity
        } else {
            InputValueType::Pressure
        },
        _ => InputValueType::Binary,
    }
}

/// The inputs of a new device.
pub open spec fn fresh_inputs(kind: DeviceKind) -> Seq<PortView> {
    if kind.has_inputs() {
        Seq::new(
            (kind.port_count() - kind.first_input()) as nat,
            |i: int| PortView::fresh(input_type(kind, i)),
        )
    } else {
        Seq::empty()
    }
}

/// The outputs of a new device that has some. Values are to be written at once, except for the fan
/// and heater boards, which are written to regularly anyway.
pub open spec fn fresh_outputs(kind: DeviceKind) -> OutputsView {
    let count: nat = if kind is FanHeater {
        5
    } else {
        16
    };
    OutputsView {
        ports: Seq::new(count, |i: int| PortView::fresh(InputValueType::Continuous)),
        values: Seq::new(count, |i: int| 0u16),
        scalings: Seq::new(
            count,
            |i: int|
                if kind.is_pca() {
                    ValueScaling::Logarithmic
                } else {
                    ValueScaling::full_range()
                },
        ),
        dirty: !(kind is FanHeater),
        last_error: None,
    }
}

/// What a new device is created with. No button is held yet.
pub open spec fn fresh_setup(cfg: HardwareDeviceConfig, alias: Seq<char>, now: u64) -> SetupView {
    match cfg {
        HardwareDeviceConfig::MCP23017Input { .. } => SetupView {
            down: Seq::new(16, |i: int| now),
            down_secs: Seq::new(16, |i: int| 0u64),
            ..SetupView::plain(alias)
        },
        HardwareDeviceConfig::Gpio { config } => SetupView {
            invert: config.invert,
            ..SetupView::plain(alias)
        },
        HardwareDeviceConfig::FanHeater { .. } => SetupView {
            aliases: seq![alias, alias],
            ..SetupView::plain(alias)
        },
        _ => SetupView::plain(alias),
    }
}

/// Creates a device. `now` is the time of the clock that buttons are measured with.
pub fn create_device_type(cfg: &HardwareDeviceConfig, alias: String, now: u64) -> (device:
    DeviceType)
    ensures
        device.wf(),
        device.kind() == configured_kind(*cfg),
        device.setup() == fresh_setup(*cfg, alias@, now),
        *cfg matches HardwareDeviceConfig::Gpio { config } ==> (device matches DeviceType::Gpio(pin)
            && pin.invert == config.invert),
        *cfg is MCP23017Input ==> (device matches DeviceType::MCP23017Input(expander)
            && expander.down@ == Seq::new(16, |i: int| now) && expander.down_secs@ == Seq::new(
            16,
            |i: int| 0u64,
        )),
        device.inputs() == fresh_inputs(device.kind()),
        device.kind().has_outputs() ==> outputs_of(device) == fresh_outputs(device.kind()),
        device.inputs_unlistened(),
        device.outputs_unlistened(),
{
    let device: DeviceType = match cfg {
        HardwareDeviceConfig::PCA9685 { .. } => DeviceType::PCA9685(PCA9685::new(alias, false)),
        HardwareDeviceConfig::PCA9685Synchronized { .. } => DeviceType::PCA9685(
            PCA9685::new(alias, true),
        ),
        HardwareDeviceConfig::DS18 { .. } => DeviceType::DS18(DS18::new(alias)),
        HardwareDeviceConfig::MCP23017 { .. } => DeviceType::MCP23017(MCP23017::new(alias)),
        HardwareDeviceConfig::BME280 { .. } => DeviceType::BME280(BME280::new(alias)),
        HardwareDeviceConfig::MCP23017Input { .. } => DeviceType::MCP23017Input(
            MCP23017Input::new(alias, now),
        ),
        HardwareDeviceConfig::DHT22 { .. } => DeviceType::DHT22(DHT22::new(alias)),
        HardwareDeviceConfig::DHT22Expander { .. } => DeviceType::DHT22Expander(
            DHT22Expander::new(alias),
        ),
        HardwareDeviceConfig::Gpio { config } => DeviceType::Gpio(
            Gpio::new(alias, config.invert),
        ),
        HardwareDeviceConfig::FanHeater { .. } => DeviceType::FanHeater(FanHeater::new(alias)),
    };
    assert(device.inputs() =~= fresh_inputs(device.kind()));
    proof {
        if device.kind().has_outputs() {
            assert(outputs_of(device).ports =~= fresh_outputs(device.kind()).ports);
            assert(outputs_of(device).values =~= fresh_outputs(device.kind()).values);
            assert(outputs_of(device).scalings =~= fresh_outputs(device.kind()).scalings);
        }
    }
    device
}

/// An input of a device that measures something is called what it measures.
pub proof fn law_inputs_are_named_by_what_they_measure(kind: DeviceKind, port: u8)
    requires
        port < kind.port_count(),
        kind is DHT22 || kind is DHT22Expander || kind is DS18 || kind is BME280,
    ensures
        ({
            let alias = kind.generic_alias(port);
            let measured = input_type(kind, port as int);
            &&& measured == InputValueType::Temperature <==> exists|prefix: Seq<char>|
                alias == #[trigger] (prefix + "temperature"@)
            &&& measured == InputValueType::Humidity <==> exists|prefix: Seq<char>|
                alias == #[trigger] (prefix + "humidity"@)
            &&& measured == InputValueType::Pressure <==> exists|prefix: Seq<char>|
                alias == #[trigger] (prefix + "pressure"@)
        }),
{
    reveal_strlit("temperature");
    reveal_strlit("humidity");
    reveal_strlit("pressure");
    reveal_strlit("-temperature");
    reveal_strlit("-humidity");
    let alias = kind.generic_alias(port);
    let n = alias.len();
    let measured = input_type(kind, port as int);
    if measured == InputValueType::Temperature {
        assert(alias =~= alias.take(n - 11) + "temperature"@);
        assert(alias[n - 1] == 'e' && alias[n - 2] == 'r' && alias[n - 3] == 'u');
    } else if measured == InputValueType::Humidity {
        assert(alias =~= alias.take(n - 8) + "humidity"@);
        assert(alias[n - 1] == 'y');
    } else {
        assert(alias =~= alias.take(n - 8) + "pressure"@);
        assert(alias[n - 1] == 'e' && alias[n - 2] == 'r' && alias[n - 3] == 'u' && alias[n - 4]
            == 's');
    }
    assert forall|prefix: Seq<char>| alias == #[trigger] (prefix + "temperature"@) implies alias[n
        - 1] == 'e' && alias[n - 4] == 't' by {
        let all = prefix + "temperature"@;
        assert(all[n - 1] == "temperature"@[10] && all[n - 4] == "temperature"@[7]);
    }
    assert forall|prefix: Seq<char>| alias == #[trigger] (prefix + "humidity"@) implies alias[n - 1]
        == 'y' by {
        let all = prefix + "humidity"@;
        assert(all[n - 1] == "humidity"@[7]);
    }
    assert forall|prefix: Seq<char>| alias == #[trigger] (prefix + "pressure"@) implies alias[n - 1]
        == 'e' && alias[n - 4] == 's' by {
        let all = prefix + "pressure"@;
        assert(all[n - 1] == "pressure"@[7] && all[n - 4] == "pressure"@[4]);
    }
}

/// Nothing is known yet of the ports of a new device, and nobody listens to them. Pins and buttons
/// are on or off. Outputs start with zero. They follow the perceived brightness on a PCA9685, and
/// the full range of values elsewhere.
pub proof fn law_ports_of_a_new_device(kind: DeviceKind, port: u8)
    ensures
        kind.is_input(port) ==> {
            let index = port - kind.first_input();
            let fresh = fresh_inputs(kind)[index];
            &&& 0 <= index < fresh_inputs(kind).len()
            &&& fresh.value is None
            &&& fresh.events is None
            &&& !fresh.waiting
            &&& fresh.value_type == input_type(kind, index)
            &&& (kind is Gpio || kind is MCP23017Input || kind is FanHeater)
                <==> fresh.value_type == InputValueType::Binary
        },
        kind.is_output(port) ==> {
            let fresh = fresh_outputs(kind);
            &&& port < fresh.ports.len() == fresh.values.len() == fresh.scalings.len()
            &&& fresh.ports[port as int].value is None
            &&& fresh.ports[port as int].events is None
            &&& fresh.ports[port as int].value_type == InputValueType::Continuous
            &&& fresh.values[port as int] == 0
            &&& fresh.scalings[port as int] == (if kind is PCA9685 || kind is PCA9685Synchronized {
                ValueScaling::Logarithmic
            } else {
                ValueScaling::Linear { from: 0, to: 65535 }
            })
            &&& fresh.last_error is None
            &&& fresh.dirty <==> !(kind is FanHeater)
        },
{
}

/// A configuration is accepted exactly if the hardware can have the address, and if the interval is
/// long enough.
pub proof fn law_accepted_configurations(cfg: HardwareDeviceConfig)
    ensures
        cfg matches HardwareDeviceConfig::PCA9685 { config } ==> (config_error(cfg) is None <==> (
        config.i2c_slave_address / 64 == 1 && config.update_interval_millis > 0)),
        cfg is PCA9685Synchronized ==> config_error(cfg) is None,
        cfg matches HardwareDeviceConfig::DS18 { config } ==> (config_error(cfg) is None
            <==> config.readout_interval_seconds > 1),
        cfg matches HardwareDeviceConfig::DHT22 { config } ==> (config_error(cfg) is None
            <==> config.readout_interval_seconds > 1),
        cfg matches HardwareDeviceConfig::MCP23017 { config } ==> (config_error(cfg) is None
            <==> config.i2c_slave_address / 8 == 4),
        cfg matches HardwareDeviceConfig::MCP23017Input { config } ==> (config_error(cfg) is None
            <==> (config.i2c_slave_address / 8 == 4 && config.polling_interval_millis > 0)),
        cfg matches HardwareDeviceConfig::BME280 { config } ==> (config_error(cfg) is None
            <==> config.i2c_slave_address / 2 == 59),
        cfg matches HardwareDeviceConfig::DHT22Expander { config } ==> (config_error(cfg) is None
            <==> (config.readout_interval_seconds > 1 && config.i2c_slave_address == 61 && match (
            config.power_cycle_every_n_readouts,
            config.power_cycle_power_off_seconds,
        ) {
            (None, _) => true,
            (Some(n), Some(_)) => n > 0,
            (Some(_), None) => false,
        })),
        cfg matches HardwareDeviceConfig::Gpio { config } ==> (config_error(cfg) is None
            <==> config.readout_interval_milliseconds > 0),
        cfg matches HardwareDeviceConfig::FanHeater { config } ==> (config_error(cfg) is None
            <==> config.update_interval_seconds > 0),
{
}

/// A device on an I2C bus uses the bus that its configuration names, and a mock if it names none.
/// Names of buses that are shared do not depend on the case.
pub proof fn law_bus_is_the_configured_one(cfg: HardwareDeviceConfig)
    ensures
        ({
            let name: Option<Seq<char>> = match cfg {
                HardwareDeviceConfig::PCA9685 { config } => Some(config.i2c_bus@),
                HardwareDeviceConfig::PCA9685Synchronized { config } => Some(
                    lowercase_of(config.i2c_bus@),
                ),
                HardwareDeviceConfig::MCP23017 { config } => Some(config.i2c_bus@),
                HardwareDeviceConfig::MCP23017Input { config } => Some(config.i2c_bus@),
                HardwareDeviceConfig::BME280 { config } => Some(config.i2c_bus@),
                HardwareDeviceConfig::DHT22Expander { config } => Some(config.i2c_bus@),
                HardwareDeviceConfig::FanHeater { config } => Some(config.i2c_bus@),
                HardwareDeviceConfig::DS18 { .. } => None,
                HardwareDeviceConfig::DHT22 { .. } => None,
                HardwareDeviceConfig::Gpio { .. } => None,
            };
            &&& name is None <==> bus_of(cfg) is NoBus
            &&& name matches Some(text) ==> (text == ""@ <==> bus_of(cfg) is Mock)
            &&& name matches Some(text) ==> text != ""@ ==> bus_of(cfg) == BusView::Path(text)
        }),
{
    reveal_strlit("");
    assert forall|text: Seq<char>| #[trigger] text.len() == 0 implies text == ""@ by {
        assert(text =~= ""@);
    }
}

/// A device is of the kind that it is configured as.
pub proof fn law_kind_is_the_configured_one(cfg: HardwareDeviceConfig)
    ensures
        cfg is DHT22 <==> configured_kind(cfg) == DeviceKind::DHT22,
        cfg is DHT22Expander <==> configured_kind(cfg) == DeviceKind::DHT22Expander,
        cfg is PCA9685 <==> configured_kind(cfg) == DeviceKind::PCA9685,
        cfg is PCA9685Synchronized <==> configured_kind(cfg) == DeviceKind::PCA9685Synchronized,
        cfg is DS18 <==> configured_kind(cfg) == DeviceKind::DS18,
        cfg is MCP23017 <==> configured_kind(cfg) == DeviceKind::MCP23017,
        cfg is MCP23017Input <==> configured_kind(cfg) == DeviceKind::MCP23017Input,
        cfg is BME280 <==> configured_kind(cfg) == DeviceKind::BME280,
        cfg is Gpio <==> configured_kind(cfg) == DeviceKind::Gpio,
        cfg is FanHeater <==> configured_kind(cfg) == DeviceKind::FanHeater,
{
}

/// A new device has its alias. A pin is inverted as configured, and no button is held, whatever
/// time it is.
pub proof fn law_setup_of_a_new_device(
    cfg: HardwareDeviceConfig,
    alias: Seq<char>,
    now: u64,
    i: int,
)
    ensures
        ({
            let setup = fresh_setup(cfg, alias, now);
            &&& setup.aliases.len() == (if cfg is FanHeater {
                2int
            } else {
                1
            })
            &&& 0 <= i < setup.aliases.len() ==> setup.aliases[i] == alias
            &&& setup.invert == (cfg matches HardwareDeviceConfig::Gpio { config }
                && config.invert)
            &&& setup.down.len() == setup.down_secs.len() == (if cfg is MCP23017Input {
                16int
            } else {
                0
            })
            &&& 0 <= i < setup.down.len() ==> setup.down[i] == now && setup.down_secs[i] == 0
        }),
{
}

} // verus!
