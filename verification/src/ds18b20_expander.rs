//! A device for the DS18B20 expander: its configuration, and the mapping of sensors to ports.
use vstd::prelude::*;
use vstd::string::StringExecFns;

use crate::device_core::{all_updated, DeviceReadCore, PortView};
use crate::ds18b20_expander_lib::{ErrorView, ExpanderError, SensorError};
use crate::failure::{failed, traced, within, Failure};
use crate::text::{decimal, hexadecimal, numbered, push_hexadecimal};
use crate::value::{outcome, Event, InputValue, InputValueType, Quantity, Timestamp};

verus! {

/// The number of ports of the device.
pub const PORT_COUNT: u8 = 50;

/// The port that a sensor is mapped to.
#[derive(Debug, Clone, Copy, PartialEq, Eq, Structural)]
pub struct SensorToPortMapping {
    pub sensor_id: u64,
    pub port: u8,
}

/// Configuration for the expander.
#[derive(Debug)]
pub struct DS18B20ExpanderConfig {
    pub i2c_bus: String,
    pub readout_interval_seconds: u8,
    pub i2c_slave_address: u8,
    pub sensor_ids: Vec<SensorToPortMapping>,
    pub readout_retries: u8,
}

/// Whether a sensor is among the mapped ones.
pub open spec fn maps_sensor(mappings: Seq<SensorToPortMapping>, sensor_id: u64) -> bool {
    exists|i: int| 0 <= i < mappings.len() && (#[trigger] mappings[i]).sensor_id == sensor_id
}

/// Whether a port is among those that are mapped to.
pub open spec fn maps_port(mappings: Seq<SensorToPortMapping>, port: u8) -> bool {
    exists|i: int| 0 <= i < mappings.len() && (#[trigger] mappings[i]).port == port
}

/// Checks mappings in order, and tells what is wrong with the first bad one.
pub open spec fn mappings_checked(mappings: Seq<SensorToPortMapping>) -> Result<(), Seq<char>>
    decreases mappings.len(),
{
    if mappings.len() == 0 {
        Ok(())
    } else {
        let before = mappings.drop_last();
        let mapping = mappings.last();
        if mappings_checked(before) is Err {
            mappings_checked(before)
        } else if mapping.port >= PORT_COUNT {
            Err("invalid port"@)
        } else if maps_sensor(before, mapping.sensor_id) {
            Err("duplicate sensor ID "@ + decimal(mapping.sensor_id as nat))
        } else if maps_port(before, mapping.port) {
            Err("duplicate port "@ + decimal(mapping.port as nat))
        } else {
            Ok(())
        }
    }
}

/// Every mapping has a port of its own and a sensor of its own.
pub open spec fn valid_mappings(mappings: Seq<SensorToPortMapping>) -> bool {
    &&& forall|i: int| 0 <= i < mappings.len() ==> (#[trigger] mappings[i]).port < PORT_COUNT
    &&& forall|i: int, j: int|
        0 <= i < j < mappings.len() ==> (#[trigger] mappings[i]).sensor_id != (
        #[trigger] mappings[j]).sensor_id
    &&& forall|i: int, j: int|
        0 <= i < j < mappings.len() ==> (#[trigger] mappings[i]).port != (
        #[trigger] mappings[j]).port
}

proof fn lemma_failed_prefix(mappings: Seq<SensorToPortMapping>, n: int)
    requires
        0 <= n <= mappings.len(),
        mappings_checked(mappings.take(n)) is Err,
    ensures
        mappings_checked(mappings) == mappings_checked(mappings.take(n)),
    decreases mappings.len() - n,
{
    if n < mappings.len() {
        assert(mappings.take(n + 1).drop_last() =~= mappings.take(n));
        lemma_failed_prefix(mappings, n + 1);
    } else {
        assert(mappings.take(n) =~= mappings);
    }
}

/// The mappings pass the check exactly if every one has a port and a sensor of its own.
pub proof fn law_checked_mappings_are_valid(mappings: Seq<SensorToPortMapping>)
    ensures
        mappings_checked(mappings) is Ok <==> valid_mappings(mappings),
    decreases mappings.len(),
{
    if mappings.len() > 0 {
        let before = mappings.drop_last();
        let mapping = mappings.last();
        law_checked_mappings_are_valid(before);
        assert forall|i: int| 0 <= i < before.len() implies before[i] == mappings[i] by {}
        if valid_mappings(mappings) {
            assert(valid_mappings(before)) by {
                assert forall|i: int| 0 <= i < before.len() implies (
                #[trigger] before[i]).port < PORT_COUNT by {
                    assert(mappings[i].port < PORT_COUNT);
                }
                assert forall|i: int, j: int| 0 <= i < j < before.len() implies (
                #[trigger] before[i]).sensor_id != (#[trigger] before[j]).sensor_id by {
                    assert(mappings[i].sensor_id != mappings[j].sensor_id);
                }
                assert forall|i: int, j: int| 0 <= i < j < before.len() implies (
                #[trigger] before[i]).port != (#[trigger] before[j]).port by {
                    assert(mappings[i].port != mappings[j].port);
                }
            }
            assert(mappings[mappings.len() - 1].port < PORT_COUNT);
            assert(!maps_sensor(before, mapping.sensor_id)) by {
                assert forall|i: int| 0 <= i < before.len() implies (
                #[trigger] before[i]).sensor_id != mapping.sensor_id by {
                    assert(mappings[i].sensor_id != mappings[mappings.len() - 1].sensor_id);
                }
            }
            assert(!maps_port(before, mapping.port)) by {
                assert forall|i: int| 0 <= i < before.len() implies (
                #[trigger] before[i]).port != mapping.port by {
                    assert(mappings[i].port != mappings[mappings.len() - 1].port);
                }
            }
        }
        if mappings_checked(mappings) is Ok {
            assert forall|i: int| 0 <= i < mappings.len() implies (
            #[trigger] mappings[i]).port < PORT_COUNT by {
                if i < before.len() {
                    assert(before[i].port < PORT_COUNT);
                }
            }
            assert forall|i: int, j: int| 0 <= i < j < mappings.len() implies (
            #[trigger] mappings[i]).sensor_id != (#[trigger] mappings[j]).sensor_id by {
                assert(before[i] == mappings[i]);
                if j < before.len() {
                    assert(before[i].sensor_id != before[j].sensor_id);
                }
            }
            assert forall|i: int, j: int| 0 <= i < j < mappings.len() implies (
            #[trigger] mappings[i]).port != (#[trigger] mappings[j]).port by {
                assert(before[i] == mappings[i]);
                if j < before.len() {
                    assert(before[i].port != before[j].port);
                }
            }
        }
    }
}

impl DS18B20ExpanderConfig {
    /// The address of the expander, which is fixed.
    pub fn slave_address(&self) -> (result: Result<u8, String>)
        ensures
            outcome(result) == (if self.i2c_slave_address == 0x3f {
                Ok(0x3fu8)
            } else {
                Err("invalid address"@)
            }),
    {
        if self.i2c_slave_address == 0x3f {
            Ok(self.i2c_slave_address)
        } else {
            Err("invalid address".to_owned())
        }
    }

    /// Checks that no port and no sensor is mapped twice.
    pub fn ensure_valid_sensor_mappings(&self) -> (result: Result<(), String>)
        ensures
            outcome(result) == mappings_checked(self.sensor_ids@),
    {
        let mut i: usize = 0;
        while i < self.sensor_ids.len()
            invariant
                i <= self.sensor_ids@.len(),
                mappings_checked(self.sensor_ids@.take(i as int)) is Ok,
            decreases self.sensor_ids.len() - i,
        {
            let mapping: SensorToPortMapping = self.sensor_ids[i];
            let ghost before = self.sensor_ids@.take(i as int);
            proof {
                assert(self.sensor_ids@.take(i + 1).drop_last() =~= before);
                assert(self.sensor_ids@.take(i + 1).last() == mapping);
            }
            if mapping.port >= PORT_COUNT {
                proof {
                    lemma_failed_prefix(self.sensor_ids@, i + 1);
                }
                return Err("invalid port".to_owned());
            }
            if is_sensor_among(&self.sensor_ids, i, mapping.sensor_id) {
                proof {
                    lemma_failed_prefix(self.sensor_ids@, i + 1);
                }
                return Err(numbered("duplicate sensor ID ", mapping.sensor_id));
            }
            if is_port_among(&self.sensor_ids, i, mapping.port) {
                proof {
                    lemma_failed_prefix(self.sensor_ids@, i + 1);
                }
                return Err(numbered("duplicate port ", mapping.port as u64));
            }
            i += 1;
        }
        assert(self.sensor_ids@.take(i as int) =~= self.sensor_ids@);
        Ok(())
    }
}

fn is_sensor_among(mappings: &Vec<SensorToPortMapping>, n: usize, sensor_id: u64) -> (found: bool)
    requires
        n <= mappings@.len(),
    ensures
        found == maps_sensor(mappings@.take(n as int), sensor_id),
{
    let mut i: usize = 0;
    while i < n
        invariant
            i <= n <= mappings@.len(),
            forall|j: int|
                0 <= j < i ==> (#[trigger] mappings@.take(n as int)[j]).sensor_id != sensor_id,
        decreases n - i,
    {
        if mappings[i].sensor_id == sensor_id {
            assert(mappings@.take(n as int)[i as int].sensor_id == sensor_id);
            return true;
        }
        i += 1;
    }
    false
}

fn is_port_among(mappings: &Vec<SensorToPortMapping>, n: usize, port: u8) -> (found: bool)
    requires
        n <= mappings@.len(),
    ensures
        found == maps_port(mappings@.take(n as int), port),
{
    let mut i: usize = 0;
    while i < n
        invariant
            i <= n <= mappings@.len(),
            forall|j: int| 0 <= j < i ==> (#[trigger] mappings@.take(n as int)[j]).port != port,
        decreases n - i,
    {
        if mappings[i].port == port {
            assert(mappings@.take(n as int)[i as int].port == port);
            return true;
        }
        i += 1;
    }
    false
}

/// Whether `index` is where a sensor comes first among the sensors on the buses.
pub open spec fn is_position(sensor_ids: Seq<u64>, sensor_id: u64, index: int) -> bool {
    &&& 0 <= index < sensor_ids.len()
    &&& sensor_ids[index] == sensor_id
    &&& forall|j: int| 0 <= j < index ==> #[trigger] sensor_ids[j] != sensor_id
}

/// Each mapping has the position of its sensor among the sensors on the buses.
pub open spec fn are_positions(
    indices: Seq<usize>,
    mappings: Seq<SensorToPortMapping>,
    sensor_ids: Seq<u64>,
) -> bool {
    &&& indices.len() == mappings.len()
    &&& forall|k: int|
        0 <= k < mappings.len() ==> is_position(
            sensor_ids,
            mappings[k].sensor_id,
            #[trigger] indices[k] as int,
        )
}

/// Whether `k` is the first mapping whose sensor is not on the buses.
pub open spec fn is_first_missing(
    mappings: Seq<SensorToPortMapping>,
    sensor_ids: Seq<u64>,
    k: int,
) -> bool {
    &&& 0 <= k < mappings.len()
    &&& !sensor_ids.contains(mappings[k].sensor_id)
    &&& forall|j: int|
        0 <= j < k ==> sensor_ids.contains((#[trigger] mappings[j]).sensor_id)
}

fn position_of(sensor_ids: &Vec<u64>, sensor_id: u64) -> (position: Option<usize>)
    ensures
        match position {
            Some(index) => is_position(sensor_ids@, sensor_id, index as int),
            None => !sensor_ids@.contains(sensor_id),
        },
{
    let mut i: usize = 0;
    while i < sensor_ids.len()
        invariant
            i <= sensor_ids@.len(),
            forall|j: int| 0 <= j < i ==> #[trigger] sensor_ids@[j] != sensor_id,
        decreases sensor_ids.len() - i,
    {
        if sensor_ids[i] == sensor_id {
            return Some(i);
        }
        i += 1;
    }
    None
}

/// Finds the sensors of all mappings among those on the buses.
pub fn find_sensors(mappings: &Vec<SensorToPortMapping>, sensor_ids: &Vec<u64>) -> (result: Result<
    Vec<usize>,
    String,
>)
    ensures
        match result {
            Ok(indices) => are_positions(indices@, mappings@, sensor_ids@),
            Err(message) => exists|k: int| #[trigger]
                is_first_missing(mappings@, sensor_ids@, k) && message@
                    == "did not find sensor with ID "@ + hexadecimal(
                    mappings@[k].sensor_id as nat,
                    16,
                ) + " on the bus"@,
        },
        result is Ok <==> forall|k: int|
            0 <= k < mappings@.len() ==> sensor_ids@.contains((#[trigger] mappings@[k]).sensor_id),
{
    let mut indices: Vec<usize> = Vec::new();
    let mut k: usize = 0;
    while k < mappings.len()
        invariant
            k <= mappings@.len(),
            indices@.len() == k,
            forall|j: int|
                0 <= j < k ==> is_position(
                    sensor_ids@,
                    mappings@[j].sensor_id,
                    #[trigger] indices@[j] as int,
                ),
            forall|j: int|
                0 <= j < k ==> sensor_ids@.contains((#[trigger] mappings@[j]).sensor_id),
        decreases mappings.len() - k,
    {
        match position_of(sensor_ids, mappings[k].sensor_id) {
            None => {
                let mut message = "did not find sensor with ID ".to_owned();
                push_hexadecimal(&mut message, mappings[k].sensor_id, 16);
                message.append(" on the bus");
                assert(is_first_missing(mappings@, sensor_ids@, k as int));
                return Err(message);
            },
            Some(index) => {
                indices.push(index);
                assert(sensor_ids@[index as int] == mappings@[k as int].sensor_id);
            },
        }
        k += 1;
    }
    Ok(indices)
}

/// The expander as a device.
#[derive(Debug)]
pub struct DS18B20Expander {
    core: DeviceReadCore,
    port_mappings: Vec<SensorToPortMapping>,
    port_indices: Vec<usize>,
    sensor_ids: Vec<u64>,
}

/// What a reading of a sensor puts on its port.
pub open spec fn reading_value(reading: Result<i16, SensorError>) -> Result<InputValue, Seq<char>> {
    match reading {
        Ok(sixteenths) => Ok(InputValue::Temperature(Quantity::Sixteenths(sixteenths))),
        Err(error) => Err(error.name_view()),
    }
}

/// Whether mapping `k` puts one of the readings on `port`.
pub open spec fn puts_reading(
    mappings: Seq<SensorToPortMapping>,
    indices: Seq<usize>,
    count: int,
    port: int,
    k: int,
) -> bool {
    0 <= k < mappings.len() && mappings[k].port == port && indices[k] < count
}

/// The ports after some readings: each mapped port has the reading of its sensor, all others are
/// left alone.
pub open spec fn readings_handled(
    before: Seq<PortView>,
    after: Seq<PortView>,
    readings: Seq<Result<i16, SensorError>>,
    mappings: Seq<SensorToPortMapping>,
    indices: Seq<usize>,
    ts: Timestamp,
) -> bool {
    &&& after.len() == before.len()
    &&& forall|port: int, k: int|
        #![trigger after[port], mappings[k]]
        0 <= port < before.len() && puts_reading(
            mappings,
            indices,
            readings.len() as int,
            port,
            k,
        ) ==> after[port] == before[port].updated(
            ts,
            reading_value(readings[indices[k] as int]),
            true,
            false,
        )
    &&& forall|port: int|
        0 <= port < before.len() && (forall|k: int|
            !#[trigger] puts_reading(mappings, indices, readings.len() as int, port, k))
            ==> #[trigger] after[port] == before[port]
}

/// How a readout ended, for statistics.
#[derive(Debug, Clone, Copy, PartialEq, Eq, Structural)]
pub enum ReadoutOutcome {
    Success,
    I2cError,
    CrcMismatch,
    BadExpander,
}

/// The error that matters for statistics: that of the last attempt, if there were several.
pub open spec fn root_error(error: ErrorView) -> ErrorView {
    match error {
        ErrorView::MaxRetriesExceeded(last) => *last,
        _ => error,
    }
}

/// How a readout with the given error ended.
pub open spec fn failed_outcome(error: ErrorView) -> ReadoutOutcome {
    match root_error(error) {
        ErrorView::Bus(_) => ReadoutOutcome::I2cError,
        ErrorView::CrcMismatch => ReadoutOutcome::CrcMismatch,
        _ => ReadoutOutcome::BadExpander,
    }
}

impl DS18B20Expander {
    /// The ports of the device.
    pub closed spec fn ports(&self) -> Seq<PortView> {
        self.core@
    }

    /// The alias of the device.
    pub closed spec fn alias_text(&self) -> Seq<char> {
        self.core.alias_text()
    }

    /// The mapped sensors.
    pub closed spec fn mappings(&self) -> Seq<SensorToPortMapping> {
        self.port_mappings@
    }

    /// The positions of the mapped sensors among those on the buses.
    pub closed spec fn indices(&self) -> Seq<usize> {
        self.port_indices@
    }

    /// The sensors on the buses.
    pub closed spec fn sensors(&self) -> Seq<u64> {
        self.sensor_ids@
    }

    /// The device has all its ports, and the mappings are those that were checked and found.
    pub open spec fn wf(&self) -> bool {
        &&& self.ports().len() == PORT_COUNT
        &&& valid_mappings(self.mappings())
        &&& are_positions(self.indices(), self.mappings(), self.sensors())
    }

    /// Checks a configuration, and yields the address of the expander.
    pub fn check_config(cfg: &DS18B20ExpanderConfig) -> (result: Result<u8, Failure>)
        ensures
            traced(result) == (if cfg.readout_interval_seconds < 2 {
                Err(failed("readout_interval_seconds must be at least 2"@))
            } else if cfg.readout_retries == 0 {
                Err(failed("readout_retries must be > 0"@))
            } else if cfg.i2c_slave_address != 0x3f {
                Err(failed("invalid address"@))
            } else {
                match mappings_checked(cfg.sensor_ids@) {
                    Ok(_) => Ok(0x3fu8),
                    Err(message) => Err(
                        within("invalid sensor<->port mappings"@, failed(message)),
                    ),
                }
            }),
    {
        if cfg.readout_interval_seconds < 2 {
            return Err(
                Failure::new("readout_interval_seconds must be at least 2".to_owned()),
            );
        }
        if cfg.readout_retries == 0 {
            return Err(Failure::new("readout_retries must be > 0".to_owned()));
        }
        let address: u8 = match cfg.slave_address() {
            Ok(address) => address,
            Err(message) => {
                return Err(Failure::new(message));
            },
        };
        match cfg.ensure_valid_sensor_mappings() {
            Ok(()) => Ok(address),
            Err(message) => Err(
                Failure::new(message).within("invalid sensor<->port mappings"),
            ),
        }
    }

    /// Creates the device, after the sensors on the buses were found.
    pub fn new(alias: String, cfg: &DS18B20ExpanderConfig, sensor_ids: Vec<u64>) -> (result: Result<
        DS18B20Expander,
        String,
    >)
        requires
            mappings_checked(cfg.sensor_ids@) is Ok,
        ensures
            match result {
                Ok(device) => {
                    &&& device.wf()
                    &&& device.ports() == Seq::new(
                        50,
                        |i: int| PortView::fresh(InputValueType::Temperature),
                    )
                    &&& device.alias_text() == alias@
                    &&& device.mappings() == cfg.sensor_ids@
                    &&& device.sensors() == sensor_ids@
                },
                Err(message) => exists|k: int| #[trigger]
                    is_first_missing(cfg.sensor_ids@, sensor_ids@, k) && message@
                        == "did not find sensor with ID "@ + hexadecimal(
                        cfg.sensor_ids@[k].sensor_id as nat,
                        16,
                    ) + " on the bus"@,
            },
            result is Ok <==> forall|k: int|
                0 <= k < cfg.sensor_ids@.len() ==> sensor_ids@.contains(
                    (#[trigger] cfg.sensor_ids@[k]).sensor_id,
                ),
    {
        let port_indices: Vec<usize> = match find_sensors(&cfg.sensor_ids, &sensor_ids) {
            Ok(indices) => indices,
            Err(message) => {
                return Err(message);
            },
        };
        let port_mappings: Vec<SensorToPortMapping> = cfg.sensor_ids.clone();
        proof {
            law_checked_mappings_are_valid(cfg.sensor_ids@);
            assert(port_mappings@ =~= cfg.sensor_ids@);
        }
        Ok(
            DS18B20Expander {
                core: DeviceReadCore::uniform(
                    alias,
                    InputValueType::Temperature,
                    PORT_COUNT as usize,
                ),
                port_mappings,
                port_indices,
                sensor_ids,
            },
        )
    }

    /// Puts the readings of the sensors on the ports that they are mapped to. There is one
    /// reading per sensor on the buses, in their order; further sensors may lack one.
    pub fn handle_results(&mut self, readings: &Vec<Result<i16, SensorError>>, ts: Timestamp)
        requires
            old(self).wf(),
            readings@.len() <= old(self).sensors().len(),
        ensures
            final(self).wf(),
            final(self).mappings() == old(self).mappings(),
            final(self).indices() == old(self).indices(),
            final(self).sensors() == old(self).sensors(),
            final(self).alias_text() == old(self).alias_text(),
            readings_handled(
                old(self).ports(),
                final(self).ports(),
                readings@,
                old(self).mappings(),
                old(self).indices(),
                ts,
            ),
    {
        let ghost before = self.core@;
        let ghost mappings = self.port_mappings@;
        let ghost indices = self.port_indices@;
        let mut i: usize = 0;
        while i < readings.len()
            invariant
                i <= readings@.len(),
                readings@.len() <= self.sensor_ids@.len(),
                self.wf(),
                self.sensor_ids == old(self).sensor_ids,
                self.port_mappings == old(self).port_mappings,
                self.port_indices == old(self).port_indices,
                self.core.alias_text() == old(self).core.alias_text(),
                mappings == self.port_mappings@,
                indices == self.port_indices@,
                before == old(self).core@,
                before.len() == 50,
                readings_handled(
                    before,
                    self.core@,
                    readings@.take(i as int),
                    mappings,
                    indices,
                    ts,
                ),
            decreases readings.len() - i,
        {
            let ghost ports = self.core@;
            let mut k: usize = 0;
            while k < self.port_indices.len() && self.port_indices[k] != i
                invariant
                    k <= self.port_indices@.len(),
                    forall|j: int| 0 <= j < k ==> #[trigger] self.port_indices@[j] != i,
                decreases self.port_indices.len() - k,
            {
                k += 1;
            }
            if k < self.port_indices.len() {
                let port: u8 = self.port_mappings[k].port;
                let value: Result<InputValue, String> = match &readings[i] {
                    Ok(sixteenths) => Ok(
                        InputValue::Temperature(Quantity::Sixteenths(*sixteenths)),
                    ),
                    Err(error) => Err(error.name()),
                };
                assert(outcome(value) == reading_value(readings@[i as int]));
                self.core.update_value_and_generate_events(ts, port as usize, value, true, false);
            }
            proof {
                lemma_one_more_reading(
                    before,
                    ports,
                    self.core@,
                    readings@,
                    mappings,
                    indices,
                    self.sensor_ids@,
                    ts,
                    i as int,
                    k as int,
                );
            }
            i += 1;
        }
        assert(readings@.take(i as int) =~= readings@);
    }

    /// Takes over what a readout of all sensors yielded. After a failure the error is put on all
    /// ports.
    pub fn process_readout(
        &mut self,
        result: &Result<Vec<Result<i16, SensorError>>, ExpanderError>,
        ts: Timestamp,
    ) -> (counted: ReadoutOutcome)
        requires
            old(self).wf(),
            result matches Ok(readings) ==> readings@.len() <= old(self).sensors().len(),
            result matches Err(error) ==> !(root_error(error.error_view()) is MaxRetriesExceeded),
        ensures
            final(self).wf(),
            final(self).mappings() == old(self).mappings(),
            final(self).indices() == old(self).indices(),
            final(self).sensors() == old(self).sensors(),
            final(self).alias_text() == old(self).alias_text(),
            match result {
                Ok(readings) => {
                    &&& counted == ReadoutOutcome::Success
                    &&& readings_handled(
                        old(self).ports(),
                        final(self).ports(),
                        readings@,
                        old(self).mappings(),
                        old(self).indices(),
                        ts,
                    )
                },
                Err(error) => {
                    &&& counted == failed_outcome(error.error_view())
                    &&& final(self).ports() == all_updated(
                        old(self).ports(),
                        ts,
                        Err(error.error_view().text()),
                        true,
                        false,
                    )
                },
            },
    {
        match result {
            Ok(readings) => {
                self.handle_results(readings, ts);
                ReadoutOutcome::Success
            },
            Err(error) => {
                proof {
                    reveal_with_fuel(ExpanderError::error_view, 2);
                }
                let text = error.text();
                self.core.set_error_on_all_ports(ts, text.as_str());
                match error {
                    ExpanderError::Bus(_) => ReadoutOutcome::I2cError,
                    ExpanderError::CrcMismatch => ReadoutOutcome::CrcMismatch,
                    ExpanderError::BadExpander(_) => ReadoutOutcome::BadExpander,
                    ExpanderError::MaxRetriesExceeded(last) => match &**last {
                        ExpanderError::Bus(_) => ReadoutOutcome::I2cError,
                        ExpanderError::CrcMismatch => ReadoutOutcome::CrcMismatch,
                        _ => ReadoutOutcome::BadExpander,
                    },
                }
            },
        }
    }

    /// The generic alias of a port.
    pub fn port_alias(port: u8) -> (result: Result<String, String>)
        ensures
            port < 50 ==> (result matches Ok(alias) && alias@ == "ds18b20-"@ + decimal(port as nat)
                + "-temperature"@),
            port >= 50 ==> (result matches Err(message) && message@
                == "DS18B20 expander has 50 ports"@),
    {
        if port < PORT_COUNT {
            let mut alias = numbered("ds18b20-", port as u64);
            alias.append("-temperature");
            Ok(alias)
        } else {
            Err("DS18B20 expander has 50 ports".to_owned())
        }
    }

    /// Starts to listen to a port, which must have a sensor.
    pub fn get_input_port(&mut self, port: u8) -> (result: Result<InputValueType, String>)
        requires
            old(self).wf(),
            port < 50 ==> old(self).ports()[port as int].events is None,
        ensures
            final(self).wf(),
            final(self).mappings() == old(self).mappings(),
            final(self).indices() == old(self).indices(),
            final(self).sensors() == old(self).sensors(),
            final(self).alias_text() == old(self).alias_text(),
            port >= 50 ==> outcome(result) == Err::<InputValueType, Seq<char>>(
                "DS18B20 expander has 50 ports"@,
            ),
            port < 50 && !maps_port(old(self).mappings(), port) ==> outcome(result) == Err::<
                InputValueType,
                Seq<char>,
            >("port "@ + decimal(port as nat) + " not configured via sensor<->port mappings"@),
            port < 50 && maps_port(old(self).mappings(), port) ==> {
                &&& result == Ok::<InputValueType, String>(
                    old(self).ports()[port as int].value_type,
                )
                &&& final(self).ports() == old(self).ports().update(
                    port as int,
                    old(self).ports()[port as int].listened_to(),
                )
            },
            result is Err ==> final(self).ports() == old(self).ports(),
    {
        if port >= PORT_COUNT {
            return Err("DS18B20 expander has 50 ports".to_owned());
        }
        assert(self.port_mappings@.take(self.port_mappings@.len() as int)
            =~= self.port_mappings@);
        if !is_port_among(&self.port_mappings, self.port_mappings.len(), port) {
            let mut message = numbered("port ", port as u64);
            message.append(" not configured via sensor<->port mappings");
            return Err(message);
        }
        self.core.get_input_port(port)
    }

    /// Picks up the oldest event of a port that is listened to.
    pub fn poll_events(&mut self, port: u8) -> (event: Option<Event>)
        requires
            old(self).wf(),
            port < 50,
            old(self).ports()[port as int].events is Some,
        ensures
            final(self).wf(),
            final(self).mappings() == old(self).mappings(),
            final(self).indices() == old(self).indices(),
            final(self).sensors() == old(self).sensors(),
            final(self).alias_text() == old(self).alias_text(),
            final(self).ports() == old(self).ports().update(
                port as int,
                old(self).ports()[port as int].polled(),
            ),
            ({
                let queue = old(self).ports()[port as int].events->0;
                match event {
                    Some(e) => queue.len() > 0 && e@ == queue[0],
                    None => queue.len() == 0,
                }
            }),
    {
        self.core.poll_events(port as usize)
    }
}

proof fn lemma_one_more_reading(
    before: Seq<PortView>,
    ports: Seq<PortView>,
    after: Seq<PortView>,
    readings: Seq<Result<i16, SensorError>>,
    mappings: Seq<SensorToPortMapping>,
    indices: Seq<usize>,
    sensor_ids: Seq<u64>,
    ts: Timestamp,
    i: int,
    k: int,
)
    requires
        before.len() == 50,
        0 <= i < readings.len() <= sensor_ids.len(),
        valid_mappings(mappings),
        are_positions(indices, mappings, sensor_ids),
        readings_handled(before, ports, readings.take(i), mappings, indices, ts),
        0 <= k <= indices.len(),
        forall|j: int| 0 <= j < k ==> #[trigger] indices[j] != i,
        k < indices.len() ==> indices[k] == i && after == ports.update(
            mappings[k].port as int,
            ports[mappings[k].port as int].updated(ts, reading_value(readings[i]), true, false),
        ),
        k == indices.len() ==> after == ports,
    ensures
        readings_handled(before, after, readings.take(i + 1), mappings, indices, ts),
{
    let now = readings.take(i + 1);
    let past = readings.take(i);
    assert forall|port: int, m: int|
        #![trigger after[port], mappings[m]]
        0 <= port < before.len() && puts_reading(
            mappings,
            indices,
            now.len() as int,
            port,
            m,
        ) implies after[port] == before[port].updated(
        ts,
        reading_value(now[indices[m] as int]),
        true,
        false,
    ) by {
        if indices[m] == i {
            assert(m >= k);
            assert(k < indices.len());
            assert(is_position(sensor_ids, mappings[k].sensor_id, indices[k] as int));
            assert(is_position(sensor_ids, mappings[m].sensor_id, indices[m] as int));
            assert(m == k);
            assert forall|n: int|
                !#[trigger] puts_reading(mappings, indices, past.len() as int, port, n) by {
                if puts_reading(mappings, indices, past.len() as int, port, n) {
                    assert(mappings[n].port == mappings[m].port);
                    assert(n == m);
                }
            }
            assert(ports[port] == before[port]);
        } else {
            assert(puts_reading(mappings, indices, past.len() as int, port, m));
            assert(past[indices[m] as int] == now[indices[m] as int]);
            assert(ports[port] == before[port].updated(
                ts,
                reading_value(past[indices[m] as int]),
                true,
                false,
            )) by {
                let trigger_port = ports[port];
                let trigger_mapping = mappings[m];
            }
            if k < indices.len() {
                assert(mappings[k].port != port) by {
                    if mappings[k].port == port {
                        assert(mappings[k].port == mappings[m].port);
                        assert(k == m);
                    }
                }
            }
        }
    }
    assert forall|port: int|
        0 <= port < before.len() && (forall|m: int|
            !#[trigger] puts_reading(mappings, indices, now.len() as int, port, m)) implies
        #[trigger] after[port] == before[port] by {
        assert forall|m: int|
            !#[trigger] puts_reading(mappings, indices, past.len() as int, port, m) by {
            assert(!puts_reading(mappings, indices, now.len() as int, port, m));
        }
        assert(ports[port] == before[port]);
        if k < indices.len() {
            assert(!puts_reading(mappings, indices, now.len() as int, port, k));
        }
    }
}

/// Every sensor that was read puts its own reading on the port that it is mapped to: its number of
/// sixteenths of a degree, or the name of its error. The listener is told in any case.
pub proof fn law_sensor_reaches_its_port(
    before: Seq<PortView>,
    after: Seq<PortView>,
    readings: Seq<Result<i16, SensorError>>,
    mappings: Seq<SensorToPortMapping>,
    indices: Seq<usize>,
    sensor_ids: Seq<u64>,
    ts: Timestamp,
    k: int,
    sensor: int,
)
    requires
        readings_handled(before, after, readings, mappings, indices, ts),
        are_positions(indices, mappings, sensor_ids),
        0 <= k < mappings.len(),
        mappings[k].port < before.len(),
        0 <= sensor < readings.len() <= sensor_ids.len(),
        sensor_ids[sensor] == mappings[k].sensor_id,
        forall|i: int, j: int|
            0 <= i < j < sensor_ids.len() ==> #[trigger] sensor_ids[i] != #[trigger] sensor_ids[j],
    ensures
        ({
            let port = mappings[k].port as int;
            let value: Result<InputValue, Seq<char>> = match readings[sensor] {
                Ok(sixteenths) => Ok(InputValue::Temperature(Quantity::Sixteenths(sixteenths))),
                Err(SensorError::DeviceNotFound) => Err("DeviceNotFound"@),
                Err(SensorError::Checksum) => Err("Checksum"@),
                Err(SensorError::SuspiciousValue) => Err("SuspiciousValue"@),
            };
            after[port] == before[port].updated(ts, value, true, false)
        }),
{
    assert(is_position(sensor_ids, mappings[k].sensor_id, indices[k] as int));
    let index = indices[k] as int;
    if index < sensor {
        assert(sensor_ids[index] != sensor_ids[sensor]);
    } else if sensor < index {
        assert(sensor_ids[sensor] != mappings[k].sensor_id);
    }
    assert(index == sensor);
    let port = mappings[k].port as int;
    assert(puts_reading(mappings, indices, readings.len() as int, port, k));
    let shown = after[port];
}

/// A port without a mapping is left alone.
pub proof fn law_unmapped_ports_stay(
    before: Seq<PortView>,
    after: Seq<PortView>,
    readings: Seq<Result<i16, SensorError>>,
    mappings: Seq<SensorToPortMapping>,
    indices: Seq<usize>,
    ts: Timestamp,
    port: int,
)
    requires
        readings_handled(before, after, readings, mappings, indices, ts),
        0 <= port < before.len(),
        forall|k: int| 0 <= k < mappings.len() ==> (#[trigger] mappings[k]).port != port,
    ensures
        after[port] == before[port],
{
    assert forall|k: int|
        !#[trigger] puts_reading(mappings, indices, readings.len() as int, port, k) by {
        if 0 <= k < mappings.len() {
            assert(mappings[k].port != port);
        }
    }
}

/// What is wrong with mappings is told of the first bad one: its port does not exist, or its sensor
/// or its port occurs before.
pub proof fn law_first_bad_mapping_is_told(mappings: Seq<SensorToPortMapping>, n: int)
    requires
        0 <= n < mappings.len(),
        valid_mappings(mappings.take(n)),
        !valid_mappings(mappings.take(n + 1)),
    ensures
        ({
            let bad = mappings[n];
            let checked = mappings_checked(mappings);
            let known = exists|i: int|
                0 <= i < n && (#[trigger] mappings[i]).sensor_id == bad.sensor_id;
            &&& bad.port >= 50 ==> checked == Err::<(), Seq<char>>("invalid port"@)
            &&& bad.port < 50 && known ==> checked == Err::<(), Seq<char>>(
                "duplicate sensor ID "@ + decimal(bad.sensor_id as nat),
            )
            &&& bad.port < 50 && !known ==> checked == Err::<(), Seq<char>>(
                "duplicate port "@ + decimal(bad.port as nat),
            )
        }),
{
    let (before, now) = (mappings.take(n), mappings.take(n + 1));
    law_checked_mappings_are_valid(before);
    law_checked_mappings_are_valid(now);
    assert(now.drop_last() =~= before);
    lemma_failed_prefix(mappings, n + 1);
    let bad = mappings[n];
    if maps_sensor(before, bad.sensor_id) {
        let i = choose|i: int| 0 <= i < before.len() && (#[trigger] before[i]).sensor_id
            == bad.sensor_id;
        assert(mappings[i].sensor_id == bad.sensor_id);
    } else {
        assert forall|i: int| 0 <= i < n implies (#[trigger] mappings[i]).sensor_id
            != bad.sensor_id by {
            assert(before[i] == mappings[i]);
        }
    }
}

/// A failed readout is counted by what went wrong in it, or in its last attempt.
pub proof fn law_failures_are_counted_by_their_cause(err: Seq<char>, error: ErrorView)
    ensures
        failed_outcome(ErrorView::Bus(err)) == ReadoutOutcome::I2cError,
        failed_outcome(ErrorView::CrcMismatch) == ReadoutOutcome::CrcMismatch,
        failed_outcome(ErrorView::BadExpander(err)) == ReadoutOutcome::BadExpander,
        !(error is MaxRetriesExceeded) ==> failed_outcome(
            ErrorView::MaxRetriesExceeded(Box::new(error)),
        ) == failed_outcome(error),
{
}

} // verus!
