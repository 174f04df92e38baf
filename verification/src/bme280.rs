//! The BME280, which measures temperature, humidity and pressure.
//!
//! The sensor is reset from time to time, and whenever its pressure jumps. What it measures are
//! floating-point numbers, which are handled by their bits here.
use vstd::prelude::*;

use crate::device_core::{all_updated, DeviceReadCore, PortView};
use crate::value::{
    outcome, EventKind, EventView, InputValue, InputValueType, Quantity, Timestamp,
};

verus! {

/// Configuration for the sensor.
#[derive(Debug)]
pub struct BME280Config {
    pub i2c_bus: String,
    pub i2c_slave_address: u8,
    pub readout_interval_seconds: u8,
    pub reset_every_n_readouts: Option<u16>,
}

/// A measurement, each quantity as the bits of a double-precision number.
#[derive(Clone, Copy, Debug, PartialEq, Eq, Structural)]
pub struct Measurement {
    pub temperature_bits: u64,
    pub humidity_bits: u64,
    pub pressure_bits: u64,
}

/// Why a measurement failed.
#[derive(Clone, Copy, Debug, PartialEq, Eq, Structural)]
pub enum MeasureErrorKind {
    CompensationFailed,
    I2c,
    InvalidData,
    NoCalibrationData,
    UnsupportedChip,
}

/// Why a measurement failed, with the driver's own description.
#[derive(Debug)]
pub struct MeasureError {
    pub kind: MeasureErrorKind,
    pub description: String,
}

/// Where the work on the sensor stands.
#[derive(Clone, Copy, Debug, PartialEq, Eq, Structural)]
pub enum RunPhase {
    /// The sensor is to be read.
    Measure,
    /// The sensor is to be reset because it was read often enough.
    RegularReset,
    /// The sensor is to be reset because its pressure jumped, and then to be read once more.
    ForcedReset,
    /// Nothing is to be done before the next round.
    Resting,
}

/// The work on the sensor, round by round.
#[derive(Clone, Copy, Debug, PartialEq, Eq, Structural)]
pub struct BmeRun {
    /// The pressure of the last good measurement.
    pub last_pressure: Option<u64>,
    pub readout_count: u32,
    pub reset_every_n_readouts: Option<u16>,
    pub phase: RunPhase,
}

/// What a measurement led to.
#[derive(Debug)]
pub enum BmeEvent {
    /// The measurement was good.
    Measured(Measurement),
    /// The pressure jumped.
    SuspiciousValue,
    /// The sensor could not be read.
    Failed(MeasureError),
}

impl BmeRun {
    /// Whether the sensor is to be reset after one more good measurement.
    pub open spec fn reset_due(self) -> bool {
        match self.reset_every_n_readouts {
            Some(n) => self.counted() >= n,
            None => false,
        }
    }

    /// The number of good measurements after one more, as far as it can be counted.
    pub open spec fn counted(self) -> u32 {
        if self.readout_count < u32::MAX {
            (self.readout_count + 1) as u32
        } else {
            u32::MAX
        }
    }

    /// Whether a measurement is not to be trusted: its pressure is far from the last one.
    pub open spec fn suspicious(self, jumped: bool) -> bool {
        self.last_pressure is Some && jumped
    }

    /// The work after a measurement. `jumped` says whether the pressure is far from the last one.
    pub open spec fn after_measurement(
        self,
        result: Result<Measurement, MeasureError>,
        jumped: bool,
    ) -> BmeRun {
        match result {
            Err(_) => BmeRun { phase: RunPhase::Resting, ..self },
            Ok(measurement) => if self.suspicious(jumped) {
                BmeRun { last_pressure: None, phase: RunPhase::ForcedReset, ..self }
            } else {
                BmeRun {
                    last_pressure: Some(measurement.pressure_bits),
                    readout_count: self.counted(),
                    phase: if self.reset_due() {
                        RunPhase::RegularReset
                    } else {
                        RunPhase::Resting
                    },
                    ..self
                }
            },
        }
    }

    /// The work after an attempt to reset the sensor.
    pub open spec fn after_reset(self, succeeded: bool) -> BmeRun {
        match self.phase {
            RunPhase::ForcedReset => BmeRun {
                phase: if succeeded {
                    RunPhase::Measure
                } else {
                    RunPhase::ForcedReset
                },
                ..self
            },
            _ => BmeRun {
                readout_count: if succeeded {
                    0
                } else {
                    self.readout_count
                },
                phase: RunPhase::Resting,
                ..self
            },
        }
    }

    /// Creates the work for a configuration.
    pub fn new(config: &BME280Config) -> (run: Self)
        ensures
            run == (BmeRun {
                last_pressure: None,
                readout_count: 0,
                reset_every_n_readouts: config.reset_every_n_readouts,
                phase: RunPhase::Measure,
            }),
    {
        BmeRun {
            last_pressure: None,
            readout_count: 0,
            reset_every_n_readouts: config.reset_every_n_readouts,
            phase: RunPhase::Measure,
        }
    }

    /// Begins the next round.
    pub fn begin(&mut self)
        ensures
            *final(self) == (BmeRun { phase: RunPhase::Measure, ..*old(self) }),
    {
        self.phase = RunPhase::Measure;
    }

    /// Takes the result of a measurement. `jumped` says whether the pressure is far from the last
    /// one; it does not matter if there is none.
    pub fn measured(&mut self, result: Result<Measurement, MeasureError>, jumped: bool) -> (event:
        BmeEvent)
        requires
            old(self).phase is Measure,
        ensures
            *final(self) == old(self).after_measurement(result, jumped),
            event == (match result {
                Err(error) => BmeEvent::Failed(error),
                Ok(measurement) => if old(self).suspicious(jumped) {
                    BmeEvent::SuspiciousValue
                } else {
                    BmeEvent::Measured(measurement)
                },
            }),
    {
        match result {
            Err(error) => {
                self.phase = RunPhase::Resting;
                BmeEvent::Failed(error)
            },
            Ok(measurement) => {
                if self.last_pressure.is_some() && jumped {
                    self.last_pressure = None;
                    self.phase = RunPhase::ForcedReset;
                    return BmeEvent::SuspiciousValue;
                }
                self.last_pressure = Some(measurement.pressure_bits);
                if self.readout_count < u32::MAX {
                    self.readout_count = self.readout_count + 1;
                }
                let due: bool = match self.reset_every_n_readouts {
                    Some(n) => self.readout_count >= n as u32,
                    None => false,
                };
                self.phase = if due { RunPhase::RegularReset } else { RunPhase::Resting };
                BmeEvent::Measured(measurement)
            },
        }
    }

    /// Goes on after an attempt to reset the sensor. A reset after a jump is tried until it
    /// succeeds; another one is tried again after the next measurement.
    pub fn reset_tried(&mut self, succeeded: bool)
        requires
            old(self).phase is RegularReset || old(self).phase is ForcedReset,
        ensures
            *final(self) == old(self).after_reset(succeeded),
    {
        match self.phase {
            RunPhase::ForcedReset => {
                if succeeded {
                    self.phase = RunPhase::Measure;
                }
            },
            _ => {
                if succeeded {
                    self.readout_count = 0;
                }
                self.phase = RunPhase::Resting;
            },
        }
    }
}

/// What a measurement puts on a port.
pub open spec fn measured_value(measurement: Measurement, port: int) -> InputValue {
    if port == 0 {
        InputValue::Temperature(Quantity::Double { bits: measurement.temperature_bits })
    } else if port == 1 {
        InputValue::Humidity(Quantity::Double { bits: measurement.humidity_bits })
    } else {
        InputValue::Pressure(Quantity::Double { bits: measurement.pressure_bits })
    }
}

/// The ports after what a measurement led to.
pub open spec fn ports_after_event(
    ports: Seq<PortView>,
    event: BmeEvent,
    ts: Timestamp,
) -> Seq<PortView> {
    match event {
        BmeEvent::SuspiciousValue => ports,
        BmeEvent::Failed(error) => all_updated(ports, ts, Err(error.description@), true, false),
        BmeEvent::Measured(measurement) => Seq::new(
            3,
            |port: int|
                ports[port].updated(ts, Ok(measured_value(measurement, port)), true, false),
        ),
    }
}

/// The sensor as a device.
#[derive(Debug)]
pub struct BME280 {
    pub core: DeviceReadCore,
}

impl BME280 {
    /// The device has all its ports.
    pub open spec fn wf(&self) -> bool {
        self.core@.len() == 3
    }

    /// Checks a configuration.
    pub fn check_config(config: &BME280Config) -> (result: Result<(), String>)
        ensures
            outcome(result) == (if config.i2c_slave_address == 0x76 || config.i2c_slave_address
                == 0x77 {
                Ok(())
            } else {
                Err("BME280 has I2C addresses 0x76 and 0x77 only"@)
            }),
    {
        if config.i2c_slave_address == 0x76 || config.i2c_slave_address == 0x77 {
            Ok(())
        } else {
            Err("BME280 has I2C addresses 0x76 and 0x77 only".to_owned())
        }
    }

    /// Creates the device.
    pub fn new(alias: String) -> (device: Self)
        ensures
            device.wf(),
            device.core@ == seq![
                PortView::fresh(InputValueType::Temperature),
                PortView::fresh(InputValueType::Humidity),
                PortView::fresh(InputValueType::Pressure),
            ],
            device.core.alias_text() == alias@,
    {
        let mut types: Vec<InputValueType> = Vec::new();
        types.push(InputValueType::Temperature);
        types.push(InputValueType::Humidity);
        types.push(InputValueType::Pressure);
        let core = DeviceReadCore::new(alias, &types);
        assert(core@ =~= seq![
            PortView::fresh(InputValueType::Temperature),
            PortView::fresh(InputValueType::Humidity),
            PortView::fresh(InputValueType::Pressure),
        ]);
        BME280 { core }
    }

    /// Takes over what a measurement led to. After a failure the error is put on all ports. A
    /// measurement that is not trusted leaves them alone.
    pub fn handle_event(&mut self, event: &BmeEvent, ts: Timestamp)
        requires
            old(self).wf(),
        ensures
            final(self).wf(),
            final(self).core.alias_text() == old(self).core.alias_text(),
            final(self).core@ == ports_after_event(old(self).core@, *event, ts),
    {
        match event {
            BmeEvent::SuspiciousValue => {},
            BmeEvent::Failed(error) => {
                self.core.set_error_on_all_ports(ts, error.description.as_str());
            },
            BmeEvent::Measured(measurement) => {
                self.core.update_value_and_generate_events(
                    ts,
                    0,
                    Ok(
                        InputValue::Temperature(
                            Quantity::Double { bits: measurement.temperature_bits },
                        ),
                    ),
                    true,
                    false,
                );
                self.core.update_value_and_generate_events(
                    ts,
                    1,
                    Ok(InputValue::Humidity(Quantity::Double { bits: measurement.humidity_bits })),
                    true,
                    false,
                );
                self.core.update_value_and_generate_events(
                    ts,
                    2,
                    Ok(InputValue::Pressure(Quantity::Double { bits: measurement.pressure_bits })),
                    true,
                    false,
                );
                assert(self.core@ =~= Seq::new(
                    3,
                    |port: int|
                        old(self).core@[port].updated(
                            ts,
                            Ok(measured_value(*measurement, port)),
                            true,
                            false,
                        ),
                ));
            },
        }
    }

    /// The generic alias of a port.
    pub fn port_alias(port: u8) -> (result: Result<String, String>)
        ensures
            match result {
                Ok(alias) => port < 3 && alias@ == (if port == 0 {
                    "temperature"@
                } else if port == 1 {
                    "humidity"@
                } else {
                    "pressure"@
                }),
                Err(message) => port >= 3 && message@
                    == "BME280 has three ports: temperature, humidity, and pressure"@,
            },
    {
        match port {
            0 => Ok("temperature".to_owned()),
            1 => Ok("humidity".to_owned()),
            2 => Ok("pressure".to_owned()),
            _ => Err("BME280 has three ports: temperature, humidity, and pressure".to_owned()),
        }
    }

    /// Starts to listen to a port.
    pub fn get_input_port(&mut self, port: u8) -> (result: Result<InputValueType, String>)
        requires
            old(self).wf(),
            port < 3 ==> old(self).core@[port as int].events is None,
        ensures
            final(self).wf(),
            final(self).core.alias_text() == old(self).core.alias_text(),
            port < 3 ==> {
                &&& result == Ok::<InputValueType, String>(old(self).core@[port as int].value_type)
                &&& final(self).core@ == old(self).core@.update(
                    port as int,
                    old(self).core@[port as int].listened_to(),
                )
            },
            port >= 3 ==> {
                &&& outcome(result) == Err::<InputValueType, Seq<char>>(
                    "BME280 has three ports: temperature, humidity, and pressure"@,
                )
                &&& final(self).core == old(self).core
            },
    {
        if port >= 3 {
            return Err("BME280 has three ports: temperature, humidity, and pressure".to_owned());
        }
        self.core.get_input_port(port)
    }
}

/// A measurement right after a forced reset is always trusted: there is no earlier pressure to
/// hold it against. So a true jump of the pressure is reported after one reset.
pub proof fn law_jump_is_believed_after_reset(
    run: BmeRun,
    measurement: Measurement,
    jumped: bool,
)
    requires
        run.phase is Measure,
        run.suspicious(true),
    ensures
        ({
            let reset = run.after_measurement(Ok(measurement), true).after_reset(true);
            &&& reset.phase is Measure
            &&& !reset.suspicious(jumped)
            &&& reset.after_measurement(Ok(measurement), jumped).last_pressure == Some(
                measurement.pressure_bits,
            )
        }),
{
}

/// While all measurements are good, the sensor is reset after every n-th one.
pub proof fn law_reset_every_n_readouts(run: BmeRun, measurement: Measurement, n: u16)
    requires
        run.phase is Measure,
        run.reset_every_n_readouts == Some(n),
        run.readout_count < n,
    ensures
        ({
            let next = run.after_measurement(Ok(measurement), false);
            &&& next.phase is RegularReset <==> run.readout_count + 1 == n
            &&& next.phase is Resting <==> run.readout_count + 1 < n
            &&& next.phase is RegularReset ==> next.after_reset(true).readout_count == 0
            &&& next.phase is Resting ==> next.readout_count < n
        }),
{
}

/// A good measurement is reported on three ports: its temperature on the first one, its humidity on
/// the second one, and its pressure on the third one, whether they changed or not.
pub proof fn law_measurement_is_reported(
    ports: Seq<PortView>,
    measurement: Measurement,
    ts: Timestamp,
)
    requires
        ports.len() == 3,
    ensures
        ({
            let after = ports_after_event(ports, BmeEvent::Measured(measurement), ts);
            &&& after.len() == 3
            &&& ports[0].events is Some ==> after[0].events == Some(
                ports[0].events->0.push(
                    EventView {
                        timestamp: ts,
                        inner: Ok(
                            EventKind::Update {
                                new_value: InputValue::Temperature(
                                    Quantity::Double { bits: measurement.temperature_bits },
                                ),
                            },
                        ),
                    },
                ),
            )
            &&& ports[1].events is Some ==> after[1].events == Some(
                ports[1].events->0.push(
                    EventView {
                        timestamp: ts,
                        inner: Ok(
                            EventKind::Update {
                                new_value: InputValue::Humidity(
                                    Quantity::Double { bits: measurement.humidity_bits },
                                ),
                            },
                        ),
                    },
                ),
            )
            &&& ports[2].events is Some ==> after[2].events == Some(
                ports[2].events->0.push(
                    EventView {
                        timestamp: ts,
                        inner: Ok(
                            EventKind::Update {
                                new_value: InputValue::Pressure(
                                    Quantity::Double { bits: measurement.pressure_bits },
                                ),
                            },
                        ),
                    },
                ),
            )
        }),
{
}

/// A failed measurement is reported on all ports with the driver's description, and one that is not
/// trusted is reported nowhere.
pub proof fn law_failed_measurement_is_reported(
    ports: Seq<PortView>,
    error: MeasureError,
    ts: Timestamp,
    port: int,
)
    requires
        ports.len() == 3,
        0 <= port < 3,
    ensures
        ports_after_event(ports, BmeEvent::SuspiciousValue, ts) == ports,
        ports[port].events is Some ==> ports_after_event(
            ports,
            BmeEvent::Failed(error),
            ts,
        )[port].events == Some(
            ports[port].events->0.push(
                EventView { timestamp: ts, inner: Err(error.description@) },
            ),
        ),
{
}

/// A measurement is good unless its pressure is far from that of the last good one, which is then
/// forgotten. Its pressure is what the next one is held against. Only good measurements count, and
/// a failed one leaves everything as it was.
pub proof fn law_pressure_is_compared_with_the_last_one(
    run: BmeRun,
    measurement: Measurement,
    error: MeasureError,
    jumped: bool,
)
    requires
        run.phase is Measure,
        run.readout_count < u32::MAX,
    ensures
        ({
            let next = run.after_measurement(Ok(measurement), jumped);
            let failed = run.after_measurement(Err(error), jumped);
            &&& run.last_pressure is Some && jumped ==> {
                &&& next.last_pressure is None
                &&& next.phase is ForcedReset
                &&& next.readout_count == run.readout_count
                &&& next.after_reset(false) == next
            }
            &&& !(run.last_pressure is Some && jumped) ==> {
                &&& next.last_pressure == Some(measurement.pressure_bits)
                &&& next.readout_count == run.readout_count + 1
                &&& next.phase is Resting || next.phase is RegularReset
                &&& run.reset_every_n_readouts is None ==> next.phase is Resting
                &&& next.phase is RegularReset ==> {
                    &&& next.after_reset(true).readout_count == 0
                    &&& next.after_reset(false).readout_count == next.readout_count
                    &&& next.after_reset(true).last_pressure == next.last_pressure
                    &&& next.after_reset(true).phase is Resting
                }
            }
            &&& failed.last_pressure == run.last_pressure
            &&& failed.readout_count == run.readout_count
            &&& failed.phase is Resting
        }),
{
}

} // verus!
