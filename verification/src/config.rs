//! The configuration of the program and of all devices.
use vstd::prelude::*;

use crate::bme280::BME280Config;
use crate::dht22::DHT22Config;
use crate::dht22_expander::DHT22ExpanderConfig;
use crate::ds18::DS18Config;
use crate::fan_heater::FanHeaterConfig;
use crate::gpio::GpioConfig;
use crate::mcp23017::MCP23017Config;
use crate::mcp23017_input::MCP23017InputConfig;
use crate::pca9685::PCA9685Config;
use crate::text::{concatenated, same_text};
use crate::value::{OutputValue, HIGH, LOW};

verus! {

/// How output values are mapped to what a device understands.
#[derive(Debug, Clone, Copy, PartialEq, Eq, PartialOrd, Ord, Structural)]
pub enum ValueScaling {
    /// The full range of values is mapped linearly to the range `from..=to`.
    Linear { from: u16, to: u16 },
    /// Values are mapped such that they are perceived as linear brightness.
    Logarithmic,
}

impl ValueScaling {
    /// The scaling that leaves values as they are.
    pub open spec fn full_range() -> ValueScaling {
        ValueScaling::Linear { from: LOW, to: HIGH }
    }
}

impl Default for ValueScaling {
    fn default() -> (scaling: Self)
        ensures
            scaling == ValueScaling::full_range(),
    {
        ValueScaling::Linear { from: LOW, to: HIGH }
    }
}

/// The config for the program as a whole, independent of devices.
#[derive(Debug)]
pub struct ProgramConfig {
    pub tcp_server_listen_address: String,
    pub prometheus_listen_address: String,
    pub device_configs: Option<Vec<String>>,
    pub log_to_file: bool,
}

impl Default for ProgramConfig {
    fn default() -> (config: Self)
        ensures
            config.tcp_server_listen_address@ == "localhost:3030"@,
            config.prometheus_listen_address@ == "0.0.0.0:6969"@,
            config.device_configs is None,
            config.log_to_file,
    {
        ProgramConfig {
            tcp_server_listen_address: "localhost:3030".to_owned(),
            prometheus_listen_address: "0.0.0.0:6969".to_owned(),
            device_configs: None,
            log_to_file: true,
        }
    }
}

/// What the mapping of any port has.
#[derive(Debug)]
pub struct BaseMappingConfig {
    pub port: u8,
    pub alias: Option<String>,
    pub tags: Option<Vec<String>>,
}

/// The mapping of an input port.
#[derive(Debug)]
pub struct InputMappingConfig {
    pub base: BaseMappingConfig,
}

/// The mapping of an output port.
#[derive(Debug)]
pub struct OutputMappingConfig {
    pub base: BaseMappingConfig,
    pub scaling: Option<ValueScaling>,
    pub default: Option<OutputValue>,
}

/// Configuration for specific hardware devices, which is needed by the driver for that device.
#[derive(Debug)]
pub enum HardwareDeviceConfig {
    PCA9685 { config: PCA9685Config },
    PCA9685Synchronized { config: PCA9685Config },
    DS18 { config: DS18Config },
    MCP23017 { config: MCP23017Config },
    BME280 { config: BME280Config },
    MCP23017Input { config: MCP23017InputConfig },
    DHT22 { config: DHT22Config },
    DHT22Expander { config: DHT22ExpanderConfig },
    Gpio { config: GpioConfig },
    FanHeater { config: FanHeaterConfig },
}

/// The configuration of a hardware device and its ports.
#[derive(Debug)]
pub struct DeviceConfig {
    pub alias: String,
    pub tags: Option<Vec<String>>,
    pub inputs: Option<Vec<InputMappingConfig>>,
    pub outputs: Option<Vec<OutputMappingConfig>>,
    pub hardware_device_config: HardwareDeviceConfig,
}

/// The contents of the main config file.
#[derive(Debug)]
pub struct ConfigFile {
    pub config: ProgramConfig,
}

/// The contents of a config file for devices.
#[derive(Debug)]
pub struct DeviceConfigFile {
    pub devices: Option<Vec<DeviceConfig>>,
}

/// The processed, filtered, aggregated config for the whole program and all devices.
/// This is aggregated from multiple config files: the program block comes from the main one, and
/// the devices of all others are put behind each other.
#[derive(Debug)]
pub struct AggregatedConfig {
    pub program: ProgramConfig,
    pub devices: Vec<DeviceConfig>,
}

/// The devices of a file.
pub open spec fn file_devices(file: DeviceConfigFile) -> Seq<DeviceConfig> {
    match file.devices {
        Some(devices) => devices@,
        None => Seq::empty(),
    }
}

/// The devices of all files, in their order.
pub open spec fn all_devices(files: Seq<DeviceConfigFile>) -> Seq<DeviceConfig>
    decreases files.len(),
{
    if files.len() == 0 {
        Seq::empty()
    } else {
        all_devices(files.drop_last()) + file_devices(files.last())
    }
}

/// Whether the device at `index` has an alias that a device before it has.
pub open spec fn is_duplicate(devices: Seq<DeviceConfig>, index: int) -> bool {
    exists|j: int|
        0 <= j < index && (#[trigger] devices[j]).alias@ == devices[index].alias@
}

/// Whether the device at `index` is the first one with an alias that a device before it has.
pub open spec fn is_first_duplicate(devices: Seq<DeviceConfig>, index: int) -> bool {
    &&& 0 <= index < devices.len()
    &&& is_duplicate(devices, index)
    &&& forall|i: int| 0 <= i < index ==> !#[trigger] is_duplicate(devices, i)
}

proof fn lemma_duplicate_in_prefix(
    devices: Seq<DeviceConfig>,
    more: Seq<DeviceConfig>,
    index: int,
)
    requires
        0 <= index < devices.len(),
    ensures
        is_duplicate(devices + more, index) == is_duplicate(devices, index),
{
    let all = devices + more;
    if is_duplicate(devices, index) {
        let j = choose|j: int|
            0 <= j < index && (#[trigger] devices[j]).alias@ == devices[index].alias@;
        assert(all[j].alias@ == all[index].alias@);
    }
    if is_duplicate(all, index) {
        let j = choose|j: int| 0 <= j < index && (#[trigger] all[j]).alias@ == all[index].alias@;
        assert(devices[j].alias@ == devices[index].alias@);
    }
}

proof fn lemma_all_devices_prefix(files: Seq<DeviceConfigFile>, n: int)
    requires
        0 <= n <= files.len(),
    ensures
        exists|more: Seq<DeviceConfig>|
            all_devices(files) == #[trigger] (all_devices(files.take(n)) + more),
    decreases files.len() - n,
{
    let prefix = all_devices(files.take(n));
    if n == files.len() {
        assert(files.take(n) =~= files);
        assert(prefix + Seq::empty() =~= prefix);
    } else {
        lemma_all_devices_prefix(files, n + 1);
        let next = all_devices(files.take(n + 1));
        let rest = choose|more: Seq<DeviceConfig>| all_devices(files) == #[trigger] (next + more);
        assert(files.take(n + 1).drop_last() =~= files.take(n));
        let added = file_devices(files[n]);
        assert(next == prefix + added);
        assert(prefix + (added + rest) =~= next + rest);
    }
}

proof fn lemma_duplicate_found(
    files: Seq<DeviceConfigFile>,
    n: int,
    known: Seq<DeviceConfig>,
    index: int,
)
    requires
        0 <= n < files.len(),
        known == all_devices(files.take(n + 1)),
        0 <= index < known.len(),
        is_duplicate(known, index),
        forall|i: int| 0 <= i < index ==> !#[trigger] is_duplicate(known, i),
    ensures
        is_first_duplicate(all_devices(files), index),
        all_devices(files)[index] == known[index],
{
    lemma_all_devices_prefix(files, n + 1);
    let more = choose|more: Seq<DeviceConfig>| all_devices(files) == #[trigger] (known + more);
    lemma_duplicate_in_prefix(known, more, index);
    assert forall|i: int| 0 <= i < index implies !#[trigger] is_duplicate(
        all_devices(files),
        i,
    ) by {
        lemma_duplicate_in_prefix(known, more, i);
    }
}

fn has_alias(devices: &Vec<DeviceConfig>, n: usize, alias: &str) -> (found: bool)
    requires
        n <= devices@.len(),
    ensures
        found == exists|j: int| 0 <= j < n && (#[trigger] devices@[j]).alias@ == alias@,
{
    let mut i: usize = 0;
    while i < n
        invariant
            i <= n <= devices@.len(),
            forall|j: int| 0 <= j < i ==> (#[trigger] devices@[j]).alias@ != alias@,
        decreases n - i,
    {
        if same_text(devices[i].alias.as_str(), alias) {
            return true;
        }
        i += 1;
    }
    false
}

impl AggregatedConfig {
    /// Aggregates the main config and the configs of devices into one aggregated config. No two
    /// devices may have the same alias.
    pub fn aggregate_from(raw: ConfigFile, files: Vec<DeviceConfigFile>) -> (result: Result<
        AggregatedConfig,
        String,
    >)
        ensures
            match result {
                Ok(cfg) => {
                    &&& cfg.program == raw.config
                    &&& cfg.devices@ == all_devices(files@)
                    &&& forall|i: int|
                        0 <= i < cfg.devices@.len() ==> !#[trigger] is_duplicate(cfg.devices@, i)
                },
                Err(message) => exists|k: int| #[trigger]
                    is_first_duplicate(all_devices(files@), k) && message@
                        == "duplicate device alias "@ + all_devices(files@)[k].alias@,
            },
    {
        let ghost all = files@;
        let mut rest: Vec<DeviceConfigFile> = files;
        let mut devices: Vec<DeviceConfig> = Vec::new();
        let ghost mut n: int = 0;
        while rest.len() > 0
            invariant
                0 <= n <= all.len(),
                all == files@,
                rest@ == all.skip(n),
                devices@ == all_devices(all.take(n)),
                forall|i: int| 0 <= i < devices@.len() ==> !#[trigger] is_duplicate(devices@, i),
            decreases rest.len(),
        {
            let ghost known = devices@;
            let file: DeviceConfigFile = rest.remove(0);
            assert(file == all[n]);
            assert(rest@ =~= all.skip(n + 1));
            assert(all.take(n + 1).drop_last() =~= all.take(n));
            assert(all.take(n + 1).last() == file);
            let first: usize = devices.len();
            match file.devices {
                None => {
                    assert(known + Seq::<DeviceConfig>::empty() =~= known);
                },
                Some(mut added) => {
                    let ghost more = added@;
                    devices.append(&mut added);
                    assert(devices@ =~= known + more);
                    let mut i: usize = first;
                    proof {
                        assert forall|j: int| 0 <= j < first implies !#[trigger] is_duplicate(
                            devices@,
                            j,
                        ) by {
                            lemma_duplicate_in_prefix(known, more, j);
                        }
                    }
                    while i < devices.len()
                        invariant
                            first <= i <= devices@.len(),
                            0 <= n < all.len(),
                            all == files@,
                            devices@ == all_devices(all.take(n + 1)),
                            forall|j: int| 0 <= j < i ==> !#[trigger] is_duplicate(devices@, j),
                        decreases devices.len() - i,
                    {
                        if has_alias(&devices, i, devices[i].alias.as_str()) {
                            proof {
                                assert(is_duplicate(devices@, i as int));
                                lemma_duplicate_found(all, n, devices@, i as int);
                            }
                            return Err(
                                concatenated(
                                    "duplicate device alias ",
                                    devices[i].alias.as_str(),
                                ),
                            );
                        }
                        i += 1;
                    }
                },
            }
            proof {
                n = n + 1;
            }
        }
        assert(all.take(n) =~= all);
        Ok(AggregatedConfig { program: raw.config, devices })
    }
}

/// No device of any file gets lost, and the devices of a file come behind those of the files before
/// it, in their order.
pub proof fn law_no_device_is_lost(files: Seq<DeviceConfigFile>, f: int, i: int)
    requires
        0 <= f < files.len(),
        files[f].devices matches Some(devices) && 0 <= i < devices@.len(),
    ensures
        ({
            let before = all_devices(files.take(f)).len();
            &&& before + i < all_devices(files).len()
            &&& all_devices(files)[before + i] == files[f].devices->0@[i]
        }),
{
    let known = all_devices(files.take(f));
    let next = all_devices(files.take(f + 1));
    assert(files.take(f + 1).drop_last() =~= files.take(f));
    assert(files.take(f + 1).last() == files[f]);
    assert(next[known.len() + i] == files[f].devices->0@[i]);
    lemma_all_devices_prefix(files, f + 1);
    let more = choose|more: Seq<DeviceConfig>| all_devices(files) == #[trigger] (next + more);
    assert(all_devices(files)[known.len() + i] == next[known.len() + i]);
}

/// Devices without duplicates all have different aliases, and a duplicate shares its alias with a
/// device before it.
pub proof fn law_duplicates_share_an_alias(devices: Seq<DeviceConfig>, i: int, j: int)
    requires
        0 <= i < j < devices.len(),
    ensures
        !is_duplicate(devices, j) ==> devices[i].alias@ != devices[j].alias@,
        devices[i].alias@ == devices[j].alias@ ==> is_duplicate(devices, j),
        !is_duplicate(devices, 0),
{
}

/// The default scaling is the one from 0 to 65535.
pub proof fn law_default_scaling()
    ensures
        ValueScaling::full_range() == (ValueScaling::Linear { from: 0, to: 65535 }),
{
}

/// The first duplicate is the first device whose alias occurs before it, and there is one exactly
/// if two devices share an alias.
pub proof fn law_first_duplicate(devices: Seq<DeviceConfig>, index: int, i: int, j: int)
    requires
        is_first_duplicate(devices, index),
        0 <= i < j < devices.len(),
        devices[i].alias@ == devices[j].alias@,
    ensures
        index <= j,
        exists|k: int| 0 <= k < index && (#[trigger] devices[k]).alias@ == devices[index].alias@,
{
    assert(is_duplicate(devices, j));
}

} // verus!
