//! A DHT22 that is attached to a GPIO pin.
use vstd::prelude::*;

use crate::device_core::{all_updated, DeviceReadCore, PortView};
use crate::dht22_lib::{Reading, ReadingError};
use crate::value::{
    outcome, EventKind, EventView, InputValue, InputValueType, Quantity, Timestamp,
};

verus! {

/// Configuration for a DHT22 (actually AM2302) temperature/humidity sensor.
#[derive(Debug)]
pub struct DHT22Config {
    pub bcm_pin: u8,
    pub adjust_priority: bool,
    pub use_experimental_implementation: bool,
    pub readout_interval_seconds: u8,
}

/// How a readout ended, for statistics.
#[derive(Clone, Copy, Debug, PartialEq, Eq, Structural)]
pub enum MeasurementOutcome {
    Success,
    ChecksumError,
    TimeoutError,
    GpioError,
    SuspiciousValue,
}

/// How a readout ended.
pub open spec fn readout_outcome(result: Result<Reading, ReadingError>) -> MeasurementOutcome {
    match result {
        Ok(reading) => if reading.suspicious() {
            MeasurementOutcome::SuspiciousValue
        } else {
            MeasurementOutcome::Success
        },
        Err(ReadingError::Checksum) => MeasurementOutcome::ChecksumError,
        Err(ReadingError::Timeout) => MeasurementOutcome::TimeoutError,
        Err(ReadingError::Gpio(_)) => MeasurementOutcome::GpioError,
    }
}

/// The sensor as a device.
#[derive(Debug)]
pub struct DHT22 {
    pub core: DeviceReadCore,
}

impl DHT22 {
    /// The device has all its ports.
    pub open spec fn wf(&self) -> bool {
        self.core@.len() == 2
    }

    /// Checks a configuration.
    pub fn check_config(cfg: &DHT22Config) -> (result: Result<(), String>)
        ensures
            outcome(result) == (if cfg.readout_interval_seconds >= 2 {
                Ok(())
            } else {
                Err("readout_interval_seconds must be at least 2"@)
            }),
    {
        if cfg.readout_interval_seconds >= 2 {
            Ok(())
        } else {
            Err("readout_interval_seconds must be at least 2".to_owned())
        }
    }

    /// Creates the device.
    pub fn new(alias: String) -> (device: Self)
        ensures
            device.wf(),
            device.core@ == seq![
                PortView::fresh(InputValueType::Temperature),
                PortView::fresh(InputValueType::Humidity),
            ],
            device.core.alias_text() == alias@,
    {
        let mut types: Vec<InputValueType> = Vec::new();
        types.push(InputValueType::Temperature);
        types.push(InputValueType::Humidity);
        let core = DeviceReadCore::new(alias, &types);
        assert(core@ =~= seq![
            PortView::fresh(InputValueType::Temperature),
            PortView::fresh(InputValueType::Humidity),
        ]);
        DHT22 { core }
    }

    /// Takes over what was read from the sensor. A humidity above 100 percent is ignored: such
    /// readings occur with right checksums. After a failure the error is put on both ports.
    pub fn handle_reading(&mut self, result: &Result<Reading, ReadingError>, ts: Timestamp)
        -> (counted: MeasurementOutcome)
        requires
            old(self).wf(),
        ensures
            final(self).wf(),
            final(self).core.alias_text() == old(self).core.alias_text(),
            counted == readout_outcome(*result),
            *result matches Ok(reading) ==> {
                let ports = old(self).core@;
                &&& reading.humidity_tenths > 1000 ==> final(self).core@ == ports
                &&& reading.humidity_tenths <= 1000 && ports[0].events is Some
                    ==> final(self).core@[0].events == Some(
                    ports[0].events->0.push(
                        EventView {
                            timestamp: ts,
                            inner: Ok(
                                EventKind::Update {
                                    new_value: InputValue::Temperature(
                                        Quantity::Tenths {
                                            negative: reading.temperature_negative,
                                            magnitude: reading.temperature_tenths,
                                        },
                                    ),
                                },
                            ),
                        },
                    ),
                )
                &&& reading.humidity_tenths <= 1000 && ports[1].events is Some
                    ==> final(self).core@[1].events == Some(
                    ports[1].events->0.push(
                        EventView {
                            timestamp: ts,
                            inner: Ok(
                                EventKind::Update {
                                    new_value: InputValue::Humidity(
                                        Quantity::Tenths {
                                            negative: false,
                                            magnitude: reading.humidity_tenths,
                                        },
                                    ),
                                },
                            ),
                        },
                    ),
                )
            },
            final(self).core@ == (match *result {
                Ok(reading) => if reading.suspicious() {
                    old(self).core@
                } else {
                    seq![
                        old(self).core@[0].updated(
                            ts,
                            Ok(InputValue::Temperature(reading.temperature_quantity())),
                            true,
                            false,
                        ),
                        old(self).core@[1].updated(
                            ts,
                            Ok(InputValue::Humidity(reading.humidity_quantity())),
                            true,
                            false,
                        ),
                    ]
                },
                Err(error) => all_updated(
                    old(self).core@,
                    ts,
                    Err(error.text_view()),
                    true,
                    false,
                ),
            }),
    {
        match result {
            Ok(reading) => {
                if reading.is_suspicious() {
                    return MeasurementOutcome::SuspiciousValue;
                }
                self.core.update_value_and_generate_events(
                    ts,
                    0,
                    Ok(InputValue::Temperature(reading.temperature())),
                    true,
                    false,
                );
                self.core.update_value_and_generate_events(
                    ts,
                    1,
                    Ok(InputValue::Humidity(reading.humidity())),
                    true,
                    false,
                );
                assert(self.core@ =~= seq![
                    old(self).core@[0].updated(
                        ts,
                        Ok(InputValue::Temperature(reading.temperature_quantity())),
                        true,
                        false,
                    ),
                    old(self).core@[1].updated(
                        ts,
                        Ok(InputValue::Humidity(reading.humidity_quantity())),
                        true,
                        false,
                    ),
                ]);
                MeasurementOutcome::Success
            },
            Err(error) => {
                let text = error.text();
                self.core.set_error_on_all_ports(ts, text.as_str());
                match error {
                    ReadingError::Checksum => MeasurementOutcome::ChecksumError,
                    ReadingError::Timeout => MeasurementOutcome::TimeoutError,
                    ReadingError::Gpio(_) => MeasurementOutcome::GpioError,
                }
            },
        }
    }

    /// The generic alias of a port.
    pub fn port_alias(port: u8) -> (result: Result<String, String>)
        ensures
            match result {
                Ok(alias) => port < 2 && alias@ == (if port == 0 {
                    "temperature"@
                } else {
                    "humidity"@
                }),
                Err(message) => port >= 2 && message@
                    == "DHT22 has two ports: temperature and humidity"@,
            },
    {
        match port {
            0 => Ok("temperature".to_owned()),
            1 => Ok("humidity".to_owned()),
            _ => Err("DHT22 has two ports: temperature and humidity".to_owned()),
        }
    }

    /// Starts to listen to a port.
    pub fn get_input_port(&mut self, port: u8) -> (result: Result<InputValueType, String>)
        requires
            old(self).wf(),
            port < 2 ==> old(self).core@[port as int].events is None,
        ensures
            final(self).wf(),
            final(self).core.alias_text() == old(self).core.alias_text(),
            port < 2 ==> {
                &&& result == Ok::<InputValueType, String>(old(self).core@[port as int].value_type)
                &&& final(self).core@ == old(self).core@.update(
                    port as int,
                    old(self).core@[port as int].listened_to(),
                )
            },
            port >= 2 ==> {
                &&& outcome(result) == Err::<InputValueType, Seq<char>>(
                    "DHT22 has two ports: temperature and humidity"@,
                )
                &&& final(self).core == old(self).core
            },
    {
        if port >= 2 {
            return Err("DHT22 has two ports: temperature and humidity".to_owned());
        }
        self.core.get_input_port(port)
    }
}

/// Readouts are counted by how they ended. A humidity of more than 100 percent is suspicious.
pub proof fn law_readouts_are_counted(reading: Reading, message: String)
    ensures
        readout_outcome(Ok(reading)) == (if reading.humidity_tenths <= 1000 {
            MeasurementOutcome::Success
        } else {
            MeasurementOutcome::SuspiciousValue
        }),
        readout_outcome(Err(ReadingError::Checksum)) == MeasurementOutcome::ChecksumError,
        readout_outcome(Err(ReadingError::Timeout)) == MeasurementOutcome::TimeoutError,
        readout_outcome(Err(ReadingError::Gpio(message))) == MeasurementOutcome::GpioError,
{
}

} // verus!
