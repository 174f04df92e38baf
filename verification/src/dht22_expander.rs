//! The I2C-to-DHT expander, which reads up to sixteen DHT22 sensors.
//!
//! A readout is started by a command. About half a second later the expander has the data of all
//! sensors. From time to time the sensors are switched off and on again, because they tend to
//! hang.
use vstd::prelude::*;
use vstd::string::StringExecFns;

use crate::bits::{digit, lemma_byte_masks};
use crate::device_core::{all_updated, report, DeviceReadCore, PortView};
use crate::dht22_lib::{checksum_of, compute_checksum, decode_reading, reading_of, Reading};
use crate::i2c::{read_from_register, reply_view, write_register, I2cRequest, RequestView};
use crate::text::{concatenated, decimal, numbered, quoted, quoted_text, tagged};
use crate::value::{outcome, InputValue, InputValueType, Quantity, Timestamp};

verus! {

/// The number of sensors.
pub const SENSOR_COUNT: usize = 16;

/// The number of ports: each sensor has one for its temperature and one for its humidity.
pub const PORT_COUNT: usize = 32;

/// The number of registers: a status, and six per sensor.
pub const REGISTER_COUNT: usize = 97;

/// How long a readout takes, in milliseconds.
pub const READOUT_MILLIS: u32 = 500;

/// Starts a readout. The flag for a watchdog reset is left alone.
pub const COMMAND_READOUT: u8 = 0x01;

/// Clears the flag for a watchdog reset.
pub const COMMAND_RESET_WATCHDOG: u8 = 0x02;

/// Switches all sensors off. The flag for a watchdog reset is left alone.
pub const COMMAND_POWER_OFF: u8 = 0x0C;

/// Switches all sensors on. The flag for a watchdog reset is left alone.
pub const COMMAND_POWER_ON: u8 = 0x00;

/// Configuration for the I2C-to-DHT expander.
#[derive(Debug)]
pub struct DHT22ExpanderConfig {
    pub i2c_bus: String,
    pub readout_interval_seconds: u8,
    pub i2c_slave_address: u8,
    pub power_cycle_every_n_readouts: Option<u16>,
    pub power_cycle_power_off_seconds: Option<u8>,
}

impl DHT22ExpanderConfig {
    /// The address of the expander, which is fixed.
    pub fn slave_address(&self) -> (result: Result<u8, String>)
        ensures
            outcome(result) == (if self.i2c_slave_address == 0x3d {
                Ok(0x3du8)
            } else {
                Err("invalid address"@)
            }),
    {
        if self.i2c_slave_address == 0x3d {
            Ok(self.i2c_slave_address)
        } else {
            Err("invalid address".to_owned())
        }
    }
}

/// Errors that may occur when reading the expander.
#[derive(Debug)]
pub enum ExpanderError {
    /// Occurs for a failed I2C bus operation.
    Bus(String),
    /// Occurs when the expander indicates the readout is still in progress at the time the data
    /// is being read out.
    ExpanderReadoutNotFinished,
    /// Occurs when the expander indicates that it has been reset by the watchdog.
    ExpanderWatchdogReset,
    /// Occurs if the expander misbehaves.
    BadExpander(String),
}

/// An error as contracts see it.
pub enum ExpanderErrorView {
    Bus(Seq<char>),
    ExpanderReadoutNotFinished,
    ExpanderWatchdogReset,
    BadExpander(Seq<char>),
}

impl View for ExpanderError {
    type V = ExpanderErrorView;

    open spec fn view(&self) -> ExpanderErrorView {
        match self {
            ExpanderError::Bus(err) => ExpanderErrorView::Bus(err@),
            ExpanderError::ExpanderReadoutNotFinished =>
                ExpanderErrorView::ExpanderReadoutNotFinished,
            ExpanderError::ExpanderWatchdogReset => ExpanderErrorView::ExpanderWatchdogReset,
            ExpanderError::BadExpander(err) => ExpanderErrorView::BadExpander(err@),
        }
    }
}

impl ExpanderErrorView {
    /// The error of a bus operation that failed.
    pub open spec fn bus_error(err: Seq<char>) -> ExpanderErrorView {
        ExpanderErrorView::Bus("I2C operation failed: "@ + err)
    }

    /// The text that is put on the ports of a failed expander.
    pub open spec fn text(self) -> Seq<char> {
        match self {
            ExpanderErrorView::Bus(err) => "Bus"@ + "("@ + quoted_text(err) + ")"@,
            ExpanderErrorView::ExpanderReadoutNotFinished => "ExpanderReadoutNotFinished"@,
            ExpanderErrorView::ExpanderWatchdogReset => "ExpanderWatchdogReset"@,
            ExpanderErrorView::BadExpander(err) => "BadExpander"@ + "("@ + quoted_text(err) + ")"@,
        }
    }
}

impl ExpanderError {
    /// The error of a bus operation that failed.
    pub fn i2c_error(err: &str) -> (error: Self)
        ensures
            error@ == ExpanderErrorView::bus_error(err@),
    {
        ExpanderError::Bus(concatenated("I2C operation failed: ", err))
    }

    /// The text that is put on the ports of a failed expander.
    pub fn text(&self) -> (text: String)
        ensures
            text@ == self@.text(),
    {
        match self {
            ExpanderError::Bus(err) => tagged("Bus", quoted(err.as_str()).as_str()),
            ExpanderError::ExpanderReadoutNotFinished => "ExpanderReadoutNotFinished".to_owned(),
            ExpanderError::ExpanderWatchdogReset => "ExpanderWatchdogReset".to_owned(),
            ExpanderError::BadExpander(err) => tagged(
                "BadExpander",
                quoted(err.as_str()).as_str(),
            ),
        }
    }
}

/// Errors that may occur when interpreting the data for one sensor attached to the expander.
#[derive(Debug, Clone, Copy, PartialEq, Eq, Structural)]
pub enum ExpanderSensorError {
    /// Occurs if a timeout occurred reading the pin.
    Timeout,
    /// Occurs if the checksum value from the DHT22 is incorrect.
    Checksum,
    /// Occurs if no start condition from the sensor was detected.
    /// This can also mean that no sensor is attached to that port.
    NoStartCondition,
    /// Occurs if a suspicious value is returned from the sensor.
    /// This is currently detected as humidity>100%.
    SuspiciousValue,
}

impl ExpanderSensorError {
    /// The name of the error.
    pub open spec fn name_view(self) -> Seq<char> {
        match self {
            ExpanderSensorError::Timeout => "Timeout"@,
            ExpanderSensorError::Checksum => "Checksum"@,
            ExpanderSensorError::NoStartCondition => "NoStartCondition"@,
            ExpanderSensorError::SuspiciousValue => "SuspiciousValue"@,
        }
    }

    /// The name of the error.
    pub fn name(&self) -> (name: String)
        ensures
            name@ == self.name_view(),
    {
        match self {
            ExpanderSensorError::Timeout => "Timeout".to_owned(),
            ExpanderSensorError::Checksum => "Checksum".to_owned(),
            ExpanderSensorError::NoStartCondition => "NoStartCondition".to_owned(),
            ExpanderSensorError::SuspiciousValue => "SuspiciousValue".to_owned(),
        }
    }
}

/// What the expander says of one sensor.
pub type SensorReading = Result<Reading, ExpanderSensorError>;

/// What six registers say of a sensor, if the last one holds a known status.
pub open spec fn sensor_reading(group: Seq<u8>) -> Option<SensorReading> {
    if group[5] == 1 {
        Some(Err(ExpanderSensorError::NoStartCondition))
    } else if group[5] == 2 {
        Some(Err(ExpanderSensorError::Timeout))
    } else if group[5] == 0 {
        let reading = reading_of(group[0], group[1], group[2], group[3]);
        if group[4] != checksum_of(group[0], group[1], group[2], group[3]) {
            Some(Err(ExpanderSensorError::Checksum))
        } else if reading.suspicious() {
            Some(Err(ExpanderSensorError::SuspiciousValue))
        } else {
            Some(Ok(reading))
        }
    } else {
        None
    }
}

/// The registers of a sensor.
pub open spec fn sensor_group(registers: Seq<u8>, sensor: int) -> Seq<u8> {
    registers.subrange(1 + 6 * sensor, 7 + 6 * sensor)
}

/// The readings of all sensors, or why there are none.
pub open spec fn readings_of(registers: Seq<u8>) -> Result<Seq<SensorReading>, ExpanderErrorView> {
    if digit(registers[0] as int, 0) {
        Err(ExpanderErrorView::ExpanderReadoutNotFinished)
    } else if !digit(registers[0] as int, 1) {
        Err(ExpanderErrorView::ExpanderWatchdogReset)
    } else if exists|sensor: int|
        0 <= sensor < SENSOR_COUNT && #[trigger] sensor_reading(sensor_group(registers, sensor))
            is None {
        Err(ExpanderErrorView::BadExpander("invalid DHT status byte"@))
    } else {
        Ok(
            Seq::new(
                SENSOR_COUNT as nat,
                |sensor: int| sensor_reading(sensor_group(registers, sensor))->Some_0,
            ),
        )
    }
}

/// What a reply of the expander says.
pub open spec fn readout_of(reply: Result<Seq<u8>, Seq<char>>) -> Result<
    Seq<SensorReading>,
    ExpanderErrorView,
> {
    match reply {
        Ok(registers) => readings_of(registers),
        Err(err) => Err(ExpanderErrorView::bus_error(err)),
    }
}

/// A result as contracts see it.
pub open spec fn readout_view(result: Result<Vec<SensorReading>, ExpanderError>) -> Result<
    Seq<SensorReading>,
    ExpanderErrorView,
> {
    match result {
        Ok(readings) => Ok(readings@),
        Err(error) => Err(error@),
    }
}

fn read_sensor(registers: &Vec<u8>, sensor: usize) -> (result: Option<SensorReading>)
    requires
        registers@.len() == REGISTER_COUNT,
        sensor < SENSOR_COUNT,
    ensures
        result == sensor_reading(sensor_group(registers@, sensor as int)),
{
    let first: usize = 1 + 6 * sensor;
    match registers[first + 5] {
        0x01 => Some(Err(ExpanderSensorError::NoStartCondition)),
        0x02 => Some(Err(ExpanderSensorError::Timeout)),
        0x00 => {
            let b0: u8 = registers[first];
            let b1: u8 = registers[first + 1];
            let b2: u8 = registers[first + 2];
            let b3: u8 = registers[first + 3];
            if compute_checksum(b0, b1, b2, b3) != registers[first + 4] {
                return Some(Err(ExpanderSensorError::Checksum));
            }
            let reading: Reading = decode_reading(b0, b1, b2, b3);
            if reading.is_suspicious() {
                return Some(Err(ExpanderSensorError::SuspiciousValue));
            }
            Some(Ok(reading))
        },
        _ => None,
    }
}

/// Decodes the registers of the expander.
pub fn readout_sensors(reply: Result<Vec<u8>, String>) -> (result: Result<
    Vec<SensorReading>,
    ExpanderError,
>)
    requires
        reply matches Ok(registers) ==> registers@.len() == REGISTER_COUNT,
    ensures
        readout_view(result) == readout_of(reply_view(reply)),
{
    let registers: Vec<u8> = match reply {
        Ok(registers) => registers,
        Err(err) => {
            return Err(ExpanderError::i2c_error(err.as_str()));
        },
    };
    proof {
        lemma_byte_masks(registers@[0]);
    }
    if registers[0] & 0x01 != 0 {
        return Err(ExpanderError::ExpanderReadoutNotFinished);
    }
    if registers[0] & 0x02 == 0 {
        return Err(ExpanderError::ExpanderWatchdogReset);
    }
    let mut readings: Vec<SensorReading> = Vec::new();
    let mut i: usize = 0;
    while i < SENSOR_COUNT
        invariant
            i <= SENSOR_COUNT,
            registers@.len() == REGISTER_COUNT,
            !digit(registers@[0] as int, 0),
            digit(registers@[0] as int, 1),
            reply_view(reply) == Ok::<Seq<u8>, Seq<char>>(registers@),
            readings@.len() == i,
            forall|j: int|
                0 <= j < i ==> (#[trigger] sensor_reading(sensor_group(registers@, j))) == Some(
                    readings@[j],
                ),
        decreases SENSOR_COUNT - i,
    {
        match read_sensor(&registers, i) {
            Some(reading) => {
                readings.push(reading);
            },
            None => {
                return Err(ExpanderError::BadExpander("invalid DHT status byte".to_owned()));
            },
        }
        i += 1;
    }
    proof {
        let expected = Seq::new(
            SENSOR_COUNT as nat,
            |sensor: int| sensor_reading(sensor_group(registers@, sensor))->Some_0,
        );
        assert forall|j: int| 0 <= j < SENSOR_COUNT implies readings@[j] == expected[j] by {
            assert(sensor_reading(sensor_group(registers@, j)) == Some(readings@[j]));
        }
        assert(readings@ =~= expected);
    }
    Ok(readings)
}

/// Where the work on the expander stands.
#[derive(Debug, Clone, Copy, PartialEq, Eq, Structural)]
pub enum RunPhase {
    /// Nothing is to be done before the next round.
    Resting,
    /// The sensors are to be switched off.
    PowerOff,
    /// The sensors are off, and are to stay so for a while.
    PowerWait,
    /// The sensors are to be switched on again.
    PowerOn,
    /// A readout is to be started.
    Init,
    /// A readout is running.
    ReadoutWait,
    /// The data is to be read.
    Readout,
    /// The flag for a watchdog reset is to be cleared.
    ResetWatchdog,
}

/// The work on the expander, round by round.
#[derive(Debug, Clone, Copy, PartialEq, Eq, Structural)]
pub struct ExpanderRun {
    pub address: u8,
    pub power_cycle_every_n_readouts: Option<u16>,
    pub power_off_seconds: u8,
    /// The number of rounds since the last power cycle.
    pub readout_counter: u16,
    /// How many seconds are to be added to the pause before the next round.
    pub bonus_seconds: u16,
    pub phase: RunPhase,
}

/// What is to be done next.
#[derive(Debug)]
pub enum RunAction {
    Transact(I2cRequest),
    SleepMillis(u32),
    /// Wait for the next round.
    Rest,
}

/// An action as contracts see it.
pub enum RunActionView {
    Transact(RequestView),
    SleepMillis(u32),
    Rest,
}

impl View for RunAction {
    type V = RunActionView;

    open spec fn view(&self) -> RunActionView {
        match self {
            RunAction::Transact(request) => RunActionView::Transact(request@),
            RunAction::SleepMillis(millis) => RunActionView::SleepMillis(*millis),
            RunAction::Rest => RunActionView::Rest,
        }
    }
}

/// What a reply of the expander led to.
#[derive(Debug)]
pub enum RunEvent {
    /// Nothing to speak of.
    Quiet,
    /// The sensors were switched off and on again.
    PowerCycled,
    /// The sensors could not be switched off and on again; the next round tries once more.
    PowerCycleFailed(ExpanderError),
    /// The readout could not be started.
    InitFailed(ExpanderError),
    /// The readout was done.
    Readout(Result<Vec<SensorReading>, ExpanderError>),
}

/// An event as contracts see it.
pub enum RunEventView {
    Quiet,
    PowerCycled,
    PowerCycleFailed(ExpanderErrorView),
    InitFailed(ExpanderErrorView),
    Readout(Result<Seq<SensorReading>, ExpanderErrorView>),
}

impl View for RunEvent {
    type V = RunEventView;

    open spec fn view(&self) -> RunEventView {
        match self {
            RunEvent::Quiet => RunEventView::Quiet,
            RunEvent::PowerCycled => RunEventView::PowerCycled,
            RunEvent::PowerCycleFailed(error) => RunEventView::PowerCycleFailed(error@),
            RunEvent::InitFailed(error) => RunEventView::InitFailed(error@),
            RunEvent::Readout(result) => RunEventView::Readout(readout_view(*result)),
        }
    }
}

impl ExpanderRun {
    /// The work in another phase.
    pub open spec fn in_phase(self, phase: RunPhase) -> ExpanderRun {
        ExpanderRun { phase, ..self }
    }

    /// Whether the next round is spent on switching the sensors off and on.
    pub open spec fn power_cycle_due(self) -> bool {
        match self.power_cycle_every_n_readouts {
            Some(n) => self.readout_counter.wrapping_add(1) >= n,
            None => false,
        }
    }

    /// The work when a round begins.
    pub open spec fn begun(self) -> ExpanderRun {
        ExpanderRun {
            readout_counter: self.readout_counter.wrapping_add(1),
            bonus_seconds: 0,
            phase: if self.power_cycle_due() {
                RunPhase::PowerOff
            } else {
                RunPhase::Init
            },
            ..self
        }
    }

    /// Writes a command.
    pub open spec fn command(self, value: u8) -> RunActionView {
        RunActionView::Transact(
            RequestView::Write { address: self.address, bytes: seq![0u8, value] },
        )
    }

    /// What is to be done next.
    pub open spec fn needs(self) -> RunActionView {
        match self.phase {
            RunPhase::Resting => RunActionView::Rest,
            RunPhase::PowerOff => self.command(COMMAND_POWER_OFF),
            RunPhase::PowerWait => RunActionView::SleepMillis(
                (self.power_off_seconds * 1000) as u32,
            ),
            RunPhase::PowerOn => self.command(COMMAND_POWER_ON),
            RunPhase::Init => self.command(COMMAND_READOUT),
            RunPhase::ReadoutWait => RunActionView::SleepMillis(READOUT_MILLIS),
            RunPhase::Readout => RunActionView::Transact(
                RequestView::WriteRead {
                    address: self.address,
                    bytes: seq![0u8],
                    len: REGISTER_COUNT as int,
                },
            ),
            RunPhase::ResetWatchdog => self.command(COMMAND_RESET_WATCHDOG),
        }
    }

    /// The work after a pause.
    pub open spec fn after_sleep(self) -> ExpanderRun {
        match self.phase {
            RunPhase::PowerWait => self.in_phase(RunPhase::PowerOn),
            _ => self.in_phase(RunPhase::Readout),
        }
    }

    /// The work after the reply to a transaction.
    pub open spec fn after_reply(self, reply: Result<Seq<u8>, Seq<char>>) -> ExpanderRun {
        match (self.phase, reply) {
            (RunPhase::PowerOff, Ok(_)) => self.in_phase(RunPhase::PowerWait),
            (RunPhase::PowerOn, Ok(_)) => ExpanderRun {
                readout_counter: 0,
                bonus_seconds: (2 + self.power_off_seconds) as u16,
                phase: RunPhase::Resting,
                ..self
            },
            (RunPhase::Init, Ok(_)) => self.in_phase(RunPhase::ReadoutWait),
            (RunPhase::Readout, _) => match readout_of(reply) {
                Err(ExpanderErrorView::ExpanderWatchdogReset) => self.in_phase(
                    RunPhase::ResetWatchdog,
                ),
                _ => self.in_phase(RunPhase::Resting),
            },
            _ => self.in_phase(RunPhase::Resting),
        }
    }

    /// What the reply to a transaction led to.
    pub open spec fn led_to(self, reply: Result<Seq<u8>, Seq<char>>) -> RunEventView {
        match (self.phase, reply) {
            (RunPhase::PowerOff, Err(err)) => RunEventView::PowerCycleFailed(
                ExpanderErrorView::bus_error(err),
            ),
            (RunPhase::PowerOn, Ok(_)) => RunEventView::PowerCycled,
            (RunPhase::PowerOn, Err(err)) => RunEventView::PowerCycleFailed(
                ExpanderErrorView::bus_error(err),
            ),
            (RunPhase::Init, Err(err)) => RunEventView::InitFailed(
                ExpanderErrorView::bus_error(err),
            ),
            (RunPhase::Readout, _) => RunEventView::Readout(readout_of(reply)),
            _ => RunEventView::Quiet,
        }
    }

    /// Creates the work for a configuration that was checked.
    pub fn new(address: u8, cfg: &DHT22ExpanderConfig) -> (run: Self)
        ensures
            run == (ExpanderRun {
                address,
                power_cycle_every_n_readouts: cfg.power_cycle_every_n_readouts,
                power_off_seconds: match cfg.power_cycle_power_off_seconds {
                    Some(seconds) => seconds,
                    None => 0,
                },
                readout_counter: 0,
                bonus_seconds: 0,
                phase: RunPhase::Resting,
            }),
    {
        let power_off_seconds: u8 = match cfg.power_cycle_power_off_seconds {
            Some(seconds) => seconds,
            None => 0,
        };
        ExpanderRun {
            address,
            power_cycle_every_n_readouts: cfg.power_cycle_every_n_readouts,
            power_off_seconds,
            readout_counter: 0,
            bonus_seconds: 0,
            phase: RunPhase::Resting,
        }
    }

    /// How many seconds lie between the last round and the next one.
    pub fn interval_seconds(&self, polling_interval_seconds: u8) -> (seconds: u64)
        ensures
            seconds == polling_interval_seconds + self.bonus_seconds,
    {
        polling_interval_seconds as u64 + self.bonus_seconds as u64
    }

    /// Begins a round.
    pub fn begin(&mut self)
        ensures
            *final(self) == old(self).begun(),
    {
        self.readout_counter = self.readout_counter.wrapping_add(1);
        self.bonus_seconds = 0;
        let due: bool = match self.power_cycle_every_n_readouts {
            Some(n) => self.readout_counter >= n,
            None => false,
        };
        self.phase = if due { RunPhase::PowerOff } else { RunPhase::Init };
    }

    /// What is to be done next.
    pub fn action(&self) -> (action: RunAction)
        ensures
            action@ == self.needs(),
    {
        match self.phase {
            RunPhase::Resting => RunAction::Rest,
            RunPhase::PowerOff => RunAction::Transact(
                write_register(self.address, 0x00, COMMAND_POWER_OFF),
            ),
            RunPhase::PowerWait => RunAction::SleepMillis(self.power_off_seconds as u32 * 1000),
            RunPhase::PowerOn => RunAction::Transact(
                write_register(self.address, 0x00, COMMAND_POWER_ON),
            ),
            RunPhase::Init => RunAction::Transact(
                write_register(self.address, 0x00, COMMAND_READOUT),
            ),
            RunPhase::ReadoutWait => RunAction::SleepMillis(READOUT_MILLIS),
            RunPhase::Readout => RunAction::Transact(
                read_from_register(self.address, 0x00, REGISTER_COUNT),
            ),
            RunPhase::ResetWatchdog => RunAction::Transact(
                write_register(self.address, 0x00, COMMAND_RESET_WATCHDOG),
            ),
        }
    }

    /// Goes on after a pause.
    pub fn slept(&mut self)
        requires
            old(self).needs() is SleepMillis,
        ensures
            *final(self) == old(self).after_sleep(),
    {
        self.phase =
        match self.phase {
            RunPhase::PowerWait => RunPhase::PowerOn,
            _ => RunPhase::Readout,
        };
    }

    /// Goes on after the reply to a transaction.
    pub fn replied(&mut self, reply: Result<Vec<u8>, String>) -> (event: RunEvent)
        requires
            old(self).needs() is Transact,
            old(self).phase is Readout ==> (reply matches Ok(registers) ==> registers@.len()
                == REGISTER_COUNT),
        ensures
            *final(self) == old(self).after_reply(reply_view(reply)),
            event@ == old(self).led_to(reply_view(reply)),
    {
        match self.phase {
            RunPhase::PowerOff => match reply {
                Ok(_) => {
                    self.phase = RunPhase::PowerWait;
                    RunEvent::Quiet
                },
                Err(err) => {
                    self.phase = RunPhase::Resting;
                    RunEvent::PowerCycleFailed(ExpanderError::i2c_error(err.as_str()))
                },
            },
            RunPhase::PowerOn => {
                self.phase = RunPhase::Resting;
                match reply {
                    Ok(_) => {
                        self.readout_counter = 0;
                        self.bonus_seconds = 2 + self.power_off_seconds as u16;
                        RunEvent::PowerCycled
                    },
                    Err(err) => RunEvent::PowerCycleFailed(
                        ExpanderError::i2c_error(err.as_str()),
                    ),
                }
            },
            RunPhase::Init => match reply {
                Ok(_) => {
                    self.phase = RunPhase::ReadoutWait;
                    RunEvent::Quiet
                },
                Err(err) => {
                    self.phase = RunPhase::Resting;
                    RunEvent::InitFailed(ExpanderError::i2c_error(err.as_str()))
                },
            },
            RunPhase::Readout => {
                let result = readout_sensors(reply);
                self.phase =
                match &result {
                    Err(ExpanderError::ExpanderWatchdogReset) => RunPhase::ResetWatchdog,
                    _ => RunPhase::Resting,
                };
                RunEvent::Readout(result)
            },
            _ => {
                self.phase = RunPhase::Resting;
                RunEvent::Quiet
            },
        }
    }
}

/// The type of a port.
pub open spec fn port_type(port: int) -> InputValueType {
    if port % 2 == 0 {
        InputValueType::Temperature
    } else {
        InputValueType::Humidity
    }
}

/// What a reading puts on a port of its sensor.
pub open spec fn port_value(readings: Seq<SensorReading>, port: int) -> Result<
    InputValue,
    Seq<char>,
> {
    match readings[port / 2] {
        Ok(reading) => Ok(
            if port % 2 == 0 {
                InputValue::Temperature(reading.temperature_quantity())
            } else {
                InputValue::Humidity(reading.humidity_quantity())
            },
        ),
        Err(error) => Err(error.name_view()),
    }
}

/// The ports after a readout. Temperature and humidity are reported together, even if only one of
/// them changed.
pub open spec fn ports_after_readout(
    ports: Seq<PortView>,
    readings: Seq<SensorReading>,
    ts: Timestamp,
) -> Seq<PortView> {
    Seq::new(
        ports.len(),
        |port: int| ports[port].updated(ts, port_value(readings, port), true, false),
    )
}

/// The expander as a device.
#[derive(Debug)]
pub struct DHT22Expander {
    pub core: DeviceReadCore,
}

impl DHT22Expander {
    /// The device has all its ports.
    pub open spec fn wf(&self) -> bool {
        self.core@.len() == PORT_COUNT
    }

    /// Checks a configuration, and yields the address of the expander.
    pub fn check_config(cfg: &DHT22ExpanderConfig) -> (result: Result<u8, String>)
        ensures
            outcome(result) == (if cfg.readout_interval_seconds < 2 {
                Err("readout_interval_seconds must be at least 2"@)
            } else if cfg.i2c_slave_address != 0x3d {
                Err("invalid address"@)
            } else if cfg.power_cycle_every_n_readouts == Some(0u16) {
                Err(
                    "power_cycle_every_n_readouts must be greater zero, or not specified to disable power cycling"@,
                )
            } else if cfg.power_cycle_every_n_readouts is Some
                && cfg.power_cycle_power_off_seconds is None {
                Err("power_cycle_power_off_seconds must be set if power cycling is enabled"@)
            } else {
                Ok(0x3du8)
            }),
    {
        if cfg.readout_interval_seconds < 2 {
            return Err("readout_interval_seconds must be at least 2".to_owned());
        }
        let address: u8 = match cfg.slave_address() {
            Ok(address) => address,
            Err(message) => {
                return Err(message);
            },
        };
        match cfg.power_cycle_every_n_readouts {
            None => {},
            Some(n) => {
                if n == 0 {
                    return Err(
                        "power_cycle_every_n_readouts must be greater zero, or not specified to disable power cycling".to_owned(),
                    );
                }
                if cfg.power_cycle_power_off_seconds.is_none() {
                    return Err(
                        "power_cycle_power_off_seconds must be set if power cycling is enabled".to_owned(),
                    );
                }
            },
        }
        Ok(address)
    }

    /// Creates the device.
    pub fn new(alias: String) -> (device: Self)
        ensures
            device.wf(),
            device.core@ == Seq::new(
                PORT_COUNT as nat,
                |port: int| PortView::fresh(port_type(port)),
            ),
            device.core.alias_text() == alias@,
    {
        let mut types: Vec<InputValueType> = Vec::new();
        let mut i: usize = 0;
        while i < PORT_COUNT
            invariant
                i <= PORT_COUNT,
                types@ == Seq::new(i as nat, |port: int| port_type(port)),
            decreases PORT_COUNT - i,
        {
            types.push(
                if i % 2 == 0 {
                    InputValueType::Temperature
                } else {
                    InputValueType::Humidity
                },
            );
            i += 1;
            assert(types@ =~= Seq::new(i as nat, |port: int| port_type(port)));
        }
        let core = DeviceReadCore::new(alias, &types);
        assert(core@ =~= Seq::new(
            PORT_COUNT as nat,
            |port: int| PortView::fresh(port_type(port)),
        ));
        DHT22Expander { core }
    }

    /// Puts the readings of all sensors on the ports.
    pub fn handle_results(&mut self, readings: &Vec<SensorReading>, ts: Timestamp)
        requires
            old(self).wf(),
            readings@.len() == SENSOR_COUNT,
        ensures
            final(self).wf(),
            final(self).core.alias_text() == old(self).core.alias_text(),
            final(self).core@ == ports_after_readout(old(self).core@, readings@, ts),
    {
        let mut i: usize = 0;
        while i < PORT_COUNT
            invariant
                i <= PORT_COUNT,
                readings@.len() == SENSOR_COUNT,
                old(self).core@.len() == PORT_COUNT,
                self.core@.len() == PORT_COUNT,
                self.core.alias_text() == old(self).core.alias_text(),
                forall|j: int|
                    0 <= j < i ==> self.core@[j] == old(self).core@[j].updated(
                        ts,
                        port_value(readings@, j),
                        true,
                        false,
                    ),
                forall|j: int| i <= j < PORT_COUNT ==> self.core@[j] == old(self).core@[j],
            decreases PORT_COUNT - i,
        {
            let value: Result<InputValue, String> = match &readings[i / 2] {
                Ok(reading) => Ok(
                    if i % 2 == 0 {
                        InputValue::Temperature(reading.temperature())
                    } else {
                        InputValue::Humidity(reading.humidity())
                    },
                ),
                Err(error) => Err(error.name()),
            };
            assert(outcome(value) == port_value(readings@, i as int));
            self.core.update_value_and_generate_events(ts, i, value, true, false);
            i += 1;
        }
        assert(self.core@ =~= ports_after_readout(old(self).core@, readings@, ts));
    }

    /// Takes over what a readout yielded. After a failure the error is put on all ports.
    pub fn process_readout(
        &mut self,
        result: &Result<Vec<SensorReading>, ExpanderError>,
        ts: Timestamp,
    )
        requires
            old(self).wf(),
            result matches Ok(readings) ==> readings@.len() == SENSOR_COUNT,
        ensures
            final(self).wf(),
            final(self).core.alias_text() == old(self).core.alias_text(),
            final(self).core@ == (match readout_view(*result) {
                Ok(readings) => ports_after_readout(old(self).core@, readings, ts),
                Err(error) => all_updated(old(self).core@, ts, Err(error.text()), true, false),
            }),
    {
        match result {
            Ok(readings) => {
                self.handle_results(readings, ts);
            },
            Err(error) => {
                let text = error.text();
                self.core.set_error_on_all_ports(ts, text.as_str());
            },
        }
    }

    /// The generic alias of a port.
    pub fn port_alias(port: u8) -> (result: Result<String, String>)
        ensures
            match result {
                Ok(alias) => port < PORT_COUNT && alias@ == "dht-"@ + decimal((port / 2) as nat) + (
                if port % 2 == 0 {
                    "-temperature"@
                } else {
                    "-humidity"@
                }),
                Err(message) => port >= PORT_COUNT && message@
                    == "DHT22Expander has 32 ports: 16 groups of temperature and humidity"@,
            },
    {
        if port as usize >= PORT_COUNT {
            return Err(
                "DHT22Expander has 32 ports: 16 groups of temperature and humidity".to_owned(),
            );
        }
        let mut alias = numbered("dht-", (port / 2) as u64);
        if port % 2 == 0 {
            alias.append("-temperature");
        } else {
            alias.append("-humidity");
        }
        Ok(alias)
    }

    /// Starts to listen to a port.
    pub fn get_input_port(&mut self, port: u8) -> (result: Result<InputValueType, String>)
        requires
            old(self).wf(),
            port < PORT_COUNT ==> old(self).core@[port as int].events is None,
        ensures
            final(self).wf(),
            final(self).core.alias_text() == old(self).core.alias_text(),
            port < PORT_COUNT ==> {
                &&& result == Ok::<InputValueType, String>(old(self).core@[port as int].value_type)
                &&& final(self).core@ == old(self).core@.update(
                    port as int,
                    old(self).core@[port as int].listened_to(),
                )
            },
            port >= PORT_COUNT ==> {
                &&& outcome(result) == Err::<InputValueType, Seq<char>>(
                    "DHT22Expander has 32 ports: 16 groups of temperature and humidity"@,
                )
                &&& final(self).core == old(self).core
            },
    {
        if port as usize >= PORT_COUNT {
            return Err(
                "DHT22Expander has 32 ports: 16 groups of temperature and humidity".to_owned(),
            );
        }
        self.core.get_input_port(port)
    }
}

/// A reading is passed on only if its checksum is right and its humidity is at most 100 percent.
pub proof fn law_readings_are_plausible(registers: Seq<u8>, sensor: int)
    requires
        registers.len() == REGISTER_COUNT,
        0 <= sensor < SENSOR_COUNT,
        readings_of(registers) matches Ok(readings) && readings[sensor] is Ok,
    ensures
        ({
            let group = sensor_group(registers, sensor);
            &&& readings_of(registers) matches Ok(readings)
            &&& readings[sensor] == Ok::<Reading, ExpanderSensorError>(
                reading_of(group[0], group[1], group[2], group[3]),
            )
            &&& readings[sensor]->Ok_0.humidity_tenths <= 1000
            &&& group[4] == checksum_of(group[0], group[1], group[2], group[3])
        }),
{
    let group = sensor_group(registers, sensor);
    assert(sensor_reading(group) is Some);
}

/// Every readout of a sensor is reported on both of its ports, whichever of temperature and
/// humidity has changed.
pub proof fn law_both_values_are_reported(
    ports: Seq<PortView>,
    readings: Seq<SensorReading>,
    ts: Timestamp,
    sensor: int,
)
    requires
        ports.len() == PORT_COUNT,
        0 <= sensor < SENSOR_COUNT,
    ensures
        ({
            let after = ports_after_readout(ports, readings, ts);
            forall|port: int|
                2 * sensor <= port <= 2 * sensor + 1 && (#[trigger] ports[port]).events is Some
                    ==> after[port].events == Some(
                    ports[port].events->0.push(report(ts, port_value(readings, port))),
                )
        }),
{
}

/// Whether an action writes a command with the bit that clears the flag for a watchdog reset.
pub open spec fn clears_watchdog_flag(action: RunActionView) -> bool {
    action matches RunActionView::Transact(RequestView::Write { bytes, .. }) && digit(
        bytes[1] as int,
        1,
    )
}

/// The flag for a watchdog reset is cleared only after a readout has seen it.
pub proof fn law_watchdog_flag_is_seen_first(
    run: ExpanderRun,
    reply: Result<Seq<u8>, Seq<char>>,
)
    ensures
        clears_watchdog_flag(run.needs()) <==> run.phase is ResetWatchdog,
        run.after_reply(reply).phase is ResetWatchdog <==> run.phase is Readout && readout_of(reply)
            == Err::<Seq<SensorReading>, ExpanderErrorView>(
            ExpanderErrorView::ExpanderWatchdogReset,
        ),
        !(run.begun().phase is ResetWatchdog),
        !(run.after_sleep().phase is ResetWatchdog),
{
}

/// With power cycling enabled and every transaction successful, the sensors are power cycled in
/// every n-th round, and are read in all others.
pub proof fn law_power_cycle_every_n_rounds(run: ExpanderRun, n: u16)
    requires
        run.power_cycle_every_n_readouts == Some(n),
        run.readout_counter < n,
    ensures
        run.begun().phase is PowerOff <==> run.readout_counter + 1 == n,
        run.begun().phase is Init <==> run.readout_counter + 1 < n,
        run.begun().phase is Init ==> run.begun().readout_counter < n,
        run.begun().phase is PowerOff ==> run.begun().after_reply(
            Ok(Seq::empty()),
        ).after_sleep().after_reply(Ok(Seq::empty())).readout_counter == 0,
{
}

/// Whether the status of every sensor is a known one.
pub open spec fn known_statuses(registers: Seq<u8>) -> bool {
    forall|i: int| 0 <= i < 16 ==> #[trigger] registers[6 + 6 * i] <= 2
}

proof fn lemma_known_statuses(registers: Seq<u8>)
    requires
        registers.len() == 97,
        known_statuses(registers),
    ensures
        forall|s: int| 0 <= s < 16 ==> #[trigger] sensor_reading(sensor_group(registers, s)) is Some,
{
    assert forall|s: int| 0 <= s < 16 implies #[trigger] sensor_reading(sensor_group(registers, s))
        is Some by {
        assert(registers[6 + 6 * s] <= 2);
        assert(sensor_group(registers, s)[5] == registers[6 + 6 * s]);
    }
}

/// The measurement of each sensor is found in its six registers, as the sensor sent it: the
/// humidity as two bytes, the temperature, whose highest bit is its sign, the sum of these, and a
/// status.
pub proof fn law_registers_hold_measurements(
    registers: Seq<u8>,
    sensor: int,
    humidity: u16,
    negative: bool,
    temperature: u16,
)
    requires
        registers.len() == 97,
        registers[0] % 4 == 2,
        known_statuses(registers),
        0 <= sensor < 16,
        temperature < 32768,
        registers[1 + 6 * sensor] == humidity / 256,
        registers[2 + 6 * sensor] == humidity % 256,
        registers[3 + 6 * sensor] == temperature / 256 + (if negative {
            128int
        } else {
            0
        }),
        registers[4 + 6 * sensor] == temperature % 256,
        registers[6 + 6 * sensor] == 0,
    ensures
        ({
            let sum = registers[1 + 6 * sensor] + registers[2 + 6 * sensor] + registers[3 + 6
                * sensor] + registers[4 + 6 * sensor];
            &&& readings_of(registers) matches Ok(readings)
            &&& readings.len() == 16
            &&& if (sum - registers[5 + 6 * sensor]) % 256 != 0 {
                readings[sensor] == Err::<Reading, ExpanderSensorError>(
                    ExpanderSensorError::Checksum,
                )
            } else if humidity > 1000 {
                readings[sensor] == Err::<Reading, ExpanderSensorError>(
                    ExpanderSensorError::SuspiciousValue,
                )
            } else {
                &&& readings[sensor] matches Ok(reading)
                &&& reading.humidity_tenths == humidity
                &&& reading.temperature_tenths == temperature
                &&& reading.temperature_negative == negative
            }
        }),
{
    lemma_known_statuses(registers);
    let group = sensor_group(registers, sensor);
    assert(group.len() == 6);
    assert(group[0] == registers[1 + 6 * sensor]);
    assert(group[1] == registers[2 + 6 * sensor]);
    assert(group[2] == registers[3 + 6 * sensor]);
    assert(group[3] == registers[4 + 6 * sensor]);
    assert(group[4] == registers[5 + 6 * sensor]);
    assert(group[5] == registers[6 + 6 * sensor]);
    assert(sensor_reading(group) is Some);
}

/// The status of a sensor tells why there is no measurement.
pub proof fn law_statuses_tell_failures(registers: Seq<u8>, sensor: int)
    requires
        registers.len() == 97,
        registers[0] % 4 == 2,
        0 <= sensor < 16,
    ensures
        !known_statuses(registers) ==> readings_of(registers) == Err::<
            Seq<SensorReading>,
            ExpanderErrorView,
        >(ExpanderErrorView::BadExpander("invalid DHT status byte"@)),
        known_statuses(registers) ==> {
            &&& readings_of(registers) matches Ok(readings)
            &&& registers[6 + 6 * sensor] == 1 ==> readings[sensor] == Err::<
                Reading,
                ExpanderSensorError,
            >(ExpanderSensorError::NoStartCondition)
            &&& registers[6 + 6 * sensor] == 2 ==> readings[sensor] == Err::<
                Reading,
                ExpanderSensorError,
            >(ExpanderSensorError::Timeout)
        },
{
    if known_statuses(registers) {
        lemma_known_statuses(registers);
        assert(sensor_group(registers, sensor)[5] == registers[6 + 6 * sensor]);
        assert(sensor_reading(sensor_group(registers, sensor)) is Some);
    } else {
        let i = choose|i: int| 0 <= i < 16 && #[trigger] registers[6 + 6 * i] > 2;
        assert(registers[6 + 6 * i] > 2);
        assert(sensor_group(registers, i)[5] == registers[6 + 6 * i]);
        assert(sensor_reading(sensor_group(registers, i)) is None);
    }
}

/// The first register tells whether there is anything to read: its lowest bit is set while a
/// readout is running, and its next one is not set after the watchdog has stepped in.
pub proof fn law_first_register_comes_first(registers: Seq<u8>)
    requires
        registers.len() == 97,
    ensures
        readings_of(registers) == Err::<Seq<SensorReading>, ExpanderErrorView>(
            ExpanderErrorView::ExpanderReadoutNotFinished,
        ) <==> registers[0] % 2 == 1,
        readings_of(registers) == Err::<Seq<SensorReading>, ExpanderErrorView>(
            ExpanderErrorView::ExpanderWatchdogReset,
        ) <==> registers[0] % 4 == 0,
{
    let v = registers[0] as int;
    assert(v / 1 % 2 == v % 2);
    assert((v / 2 % 2 == 1) == (v % 4 >= 2));
}

/// The temperature of a sensor goes to its first port, its humidity to the second one. If there is
/// no measurement, both get the name of the error.
pub proof fn law_sensor_ports(readings: Seq<SensorReading>, sensor: int)
    requires
        readings.len() == 16,
        0 <= sensor < 16,
    ensures
        match readings[sensor] {
            Ok(reading) => {
                &&& port_value(readings, 2 * sensor) == Ok::<InputValue, Seq<char>>(
                    InputValue::Temperature(
                        Quantity::Tenths {
                            negative: reading.temperature_negative,
                            magnitude: reading.temperature_tenths,
                        },
                    ),
                )
                &&& port_value(readings, 2 * sensor + 1) == Ok::<InputValue, Seq<char>>(
                    InputValue::Humidity(
                        Quantity::Tenths { negative: false, magnitude: reading.humidity_tenths },
                    ),
                )
            },
            Err(error) => {
                let name = match error {
                    ExpanderSensorError::Timeout => "Timeout"@,
                    ExpanderSensorError::Checksum => "Checksum"@,
                    ExpanderSensorError::NoStartCondition => "NoStartCondition"@,
                    ExpanderSensorError::SuspiciousValue => "SuspiciousValue"@,
                };
                &&& port_value(readings, 2 * sensor) == Err::<InputValue, Seq<char>>(name)
                &&& port_value(readings, 2 * sensor + 1) == Err::<InputValue, Seq<char>>(name)
            },
        },
        port_type(2 * sensor) == InputValueType::Temperature,
        port_type(2 * sensor + 1) == InputValueType::Humidity,
{
    assert((2 * sensor) / 2 == sensor && (2 * sensor + 1) / 2 == sensor);
    assert((2 * sensor) % 2 == 0 && (2 * sensor + 1) % 2 == 1);
}

/// What a round of reading asks of the expander: a command that starts the readout, half a second
/// of patience, and all 97 registers. If these tell of a watchdog reset, that is acknowledged.
pub proof fn law_readout_round(
    run: ExpanderRun,
    started: Seq<u8>,
    reply: Result<Seq<u8>, Seq<char>>,
)
    requires
        run.phase is Init,
    ensures
        run.needs() == RunActionView::Transact(
            RequestView::Write { address: run.address, bytes: seq![0u8, 1u8] },
        ),
        ({
            let waiting = run.after_reply(Ok(started));
            let reading = waiting.after_sleep();
            let read = reading.after_reply(reply);
            &&& waiting.needs() == RunActionView::SleepMillis(500)
            &&& reading.needs() == RunActionView::Transact(
                RequestView::WriteRead { address: run.address, bytes: seq![0u8], len: 97 },
            )
            &&& reading.led_to(reply) == RunEventView::Readout(readout_of(reply))
            &&& read.readout_counter == run.readout_counter
            &&& (reply matches Ok(registers) && registers.len() == 97 && registers[0] % 4 == 0)
                ==> read.needs() == RunActionView::Transact(
                RequestView::Write { address: run.address, bytes: seq![0u8, 2u8] },
            ) && read.after_reply(reply).needs() is Rest
            &&& (reply matches Ok(registers) && registers.len() == 97 && registers[0] % 4 != 0)
                ==> read.needs() is Rest
            &&& reply is Err ==> read.needs() is Rest
        }),
{
    match reply {
        Ok(registers) => {
            if registers.len() == 97 {
                law_first_register_comes_first(registers);
            }
        },
        Err(_) => {},
    }
}

/// What a round of power cycling asks of the expander: the sensors are switched off for the
/// configured number of seconds and on again, and get that time and two more seconds until the
/// next round.
pub proof fn law_power_cycle_round(run: ExpanderRun, reply: Seq<u8>)
    requires
        run.phase is PowerOff,
    ensures
        run.needs() == RunActionView::Transact(
            RequestView::Write { address: run.address, bytes: seq![0u8, 12u8] },
        ),
        ({
            let off = run.after_reply(Ok(reply));
            let waited = off.after_sleep();
            let done = waited.after_reply(Ok(reply));
            &&& off.needs() == RunActionView::SleepMillis((run.power_off_seconds * 1000) as u32)
            &&& waited.needs() == RunActionView::Transact(
                RequestView::Write { address: run.address, bytes: seq![0u8, 0u8] },
            )
            &&& waited.led_to(Ok(reply)) is PowerCycled
            &&& done.needs() is Rest
            &&& done.bonus_seconds == run.power_off_seconds + 2
            &&& done.begun().bonus_seconds == 0
            &&& done.readout_counter == 0
        }),
{
}

/// A command that fails ends the round. What was tried is told, and a power cycle that failed is
/// still due in the next round.
pub proof fn law_failed_commands_end_the_round(run: ExpanderRun, err: Seq<char>)
    requires
        !(run.phase is Resting),
        !(run.phase is PowerWait),
        !(run.phase is ReadoutWait),
    ensures
        ({
            let error = ExpanderErrorView::Bus("I2C operation failed: "@ + err);
            let after = run.after_reply(Err(err));
            let told = run.led_to(Err(err));
            &&& after.needs() is Rest
            &&& after.readout_counter == run.readout_counter
            &&& after.bonus_seconds == run.bonus_seconds
            &&& run.phase is PowerOff || run.phase is PowerOn ==> told
                == RunEventView::PowerCycleFailed(error)
            &&& run.phase is Init ==> told == RunEventView::InitFailed(error)
            &&& run.phase is Readout ==> told == RunEventView::Readout(Err(error))
            &&& run.phase is ResetWatchdog ==> told is Quiet
        }),
{
}

/// Without power cycling every round reads the sensors. With it, a power cycle that is overdue is
/// made up for.
pub proof fn law_power_cycles_are_configured(run: ExpanderRun, n: u16)
    ensures
        run.power_cycle_every_n_readouts is None ==> run.begun().phase is Init,
        (run.power_cycle_every_n_readouts == Some(n) && n <= run.readout_counter < 65535)
            ==> run.begun().phase is PowerOff,
        run.readout_counter < 65535 ==> run.begun().readout_counter == run.readout_counter + 1,
        run.begun().address == run.address,
        run.begun().power_off_seconds == run.power_off_seconds,
{
}

/// Errors of the expander are told by their names, with what caused them.
pub proof fn law_texts_of_expander_errors(err: Seq<char>)
    ensures
        ExpanderErrorView::Bus(err).text() == "Bus("@ + quoted_text(err) + ")"@,
        ExpanderErrorView::BadExpander(err).text() == "BadExpander("@ + quoted_text(err) + ")"@,
        ExpanderErrorView::ExpanderReadoutNotFinished.text() == "ExpanderReadoutNotFinished"@,
        ExpanderErrorView::ExpanderWatchdogReset.text() == "ExpanderWatchdogReset"@,
{
    reveal_strlit("(");
    reveal_strlit("Bus");
    reveal_strlit("Bus(");
    reveal_strlit("BadExpander");
    reveal_strlit("BadExpander(");
    assert("Bus"@ + "("@ =~= "Bus("@);
    assert("BadExpander"@ + "("@ =~= "BadExpander("@);
}

} // verus!
