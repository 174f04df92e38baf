//! The fan and heater control boards.
//!
//! Two boards share a bus: one drives the fans of a ventilation, the other one a heater and two
//! relays. Both have a watchdog, which takes the board over if nobody writes to it for a while.
use vstd::prelude::*;

use crate::bits::{digit, lemma_byte_masks, valued};
use crate::config::ValueScaling;
use crate::device_core::{
    all_updated, retrieved, values_written, DeviceRWCore, DeviceReadCore, PortView,
};
use crate::i2c::{read_from_register, reply_view, write_register, I2cRequest, RequestView};
use crate::text::{concatenated, decimal, numbered, quoted, quoted_text, tagged};
use crate::value::{outcome, InputValue, InputValueType, OutputValue, Timestamp, HIGH, LOW};

verus! {

pub const WATCHDOG_BIT: u8 = 0x02;

pub const FAN_BOARD_ADDRESS: u8 = 0x22;

pub const FAN_BOARD_I2C_DISABLED_BIT: u8 = 0x01;

pub const FAN_BOARD_MAX_AIR_IN_LEVEL: u8 = 6;

pub const FAN_BOARD_MAX_AIR_OUT_LEVEL: u8 = 4;

pub const HEATER_BOARD_ADDRESS: u8 = 0x23;

pub const HEATER_BOARD_HEATING_DISABLED_BIT: u8 = 0x01;

pub const HEATER_BOARD_HEATER_MASK: u8 = 0b0011_1111;

pub const HEATER_BOARD_RELAY_1_MASK: u8 = 0b0100_0000;

pub const HEATER_BOARD_RELAY_2_MASK: u8 = 0b1000_0000;

pub const HEATER_BOARD_MAX_HEATING_LEVEL: u8 = 30;

/// How often a board's watchdog is reset before the board is given up.
pub const MAX_WATCHDOG_RESETS: u8 = 2;

/// Configuration for the custom heater and fan control boards.
#[derive(Debug)]
pub struct FanHeaterConfig {
    pub i2c_bus: String,
    pub update_interval_seconds: u8,
}

/// Errors that may occur when talking to the boards.
#[derive(Debug)]
pub enum FanHeaterError {
    /// Occurs for a failed I2C bus operation.
    Bus(String),
    /// Occurs if the fan board misbehaves.
    BadFanBoard(String),
    /// Occurs if the heater board misbehaves.
    BadHeaterBoard(String),
}

/// An error as contracts see it.
pub enum FanHeaterErrorView {
    Bus(Seq<char>),
    BadFanBoard(Seq<char>),
    BadHeaterBoard(Seq<char>),
}

impl View for FanHeaterError {
    type V = FanHeaterErrorView;

    open spec fn view(&self) -> FanHeaterErrorView {
        match self {
            FanHeaterError::Bus(err) => FanHeaterErrorView::Bus(err@),
            FanHeaterError::BadFanBoard(err) => FanHeaterErrorView::BadFanBoard(err@),
            FanHeaterError::BadHeaterBoard(err) => FanHeaterErrorView::BadHeaterBoard(err@),
        }
    }
}

impl FanHeaterErrorView {
    /// The error of a bus operation that failed.
    pub open spec fn bus_error(err: Seq<char>) -> FanHeaterErrorView {
        FanHeaterErrorView::Bus("I2C operation failed: "@ + err)
    }

    /// The error as a text.
    pub open spec fn text(self) -> Seq<char> {
        match self {
            FanHeaterErrorView::Bus(err) => "Bus"@ + "("@ + quoted_text(err) + ")"@,
            FanHeaterErrorView::BadFanBoard(err) => "BadFanBoard"@ + "("@ + quoted_text(err)
                + ")"@,
            FanHeaterErrorView::BadHeaterBoard(err) => "BadHeaterBoard"@ + "("@ + quoted_text(err)
                + ")"@,
        }
    }
}

impl FanHeaterError {
    /// The error of a bus operation that failed.
    pub fn i2c_error(err: &str) -> (error: Self)
        ensures
            error@ == FanHeaterErrorView::bus_error(err@),
    {
        FanHeaterError::Bus(concatenated("I2C operation failed: ", err))
    }

    /// The error as a text.
    pub fn text(&self) -> (text: String)
        ensures
            text@ == self@.text(),
    {
        match self {
            FanHeaterError::Bus(err) => tagged("Bus", quoted(err.as_str()).as_str()),
            FanHeaterError::BadFanBoard(err) => tagged(
                "BadFanBoard",
                quoted(err.as_str()).as_str(),
            ),
            FanHeaterError::BadHeaterBoard(err) => tagged(
                "BadHeaterBoard",
                quoted(err.as_str()).as_str(),
            ),
        }
    }
}

/// A result as contracts see it.
pub open spec fn board_outcome<T>(result: Result<T, FanHeaterError>) -> Result<
    T,
    FanHeaterErrorView,
> {
    match result {
        Ok(value) => Ok(value),
        Err(error) => Err(error@),
    }
}

/// The state of the fan board.
#[derive(Clone, Copy, Debug, PartialEq, Eq, Structural)]
pub struct FanBoardState {
    pub i2c_disabled: bool,
    pub watchdog_reset: bool,
    pub air_in: u8,
    pub air_out: u8,
}

/// The state of the heater board.
#[derive(Clone, Copy, Debug, PartialEq, Eq, Structural)]
pub struct HeaterBoardState {
    pub heater_disabled: bool,
    pub watchdog_reset: bool,
    pub heater_level: u8,
    pub relay_1: bool,
    pub relay_2: bool,
}

/// What the registers of the fan board say.
pub open spec fn fan_state_of(b0: u8, b1: u8, b2: u8) -> Result<FanBoardState, FanHeaterErrorView> {
    if b1 > FAN_BOARD_MAX_AIR_IN_LEVEL {
        Err(FanHeaterErrorView::BadFanBoard("bad air in level: "@ + decimal(b1 as nat)))
    } else if b2 > FAN_BOARD_MAX_AIR_OUT_LEVEL {
        Err(FanHeaterErrorView::BadFanBoard("bad air out level: "@ + decimal(b2 as nat)))
    } else {
        Ok(
            FanBoardState {
                i2c_disabled: digit(b0 as int, 0),
                watchdog_reset: !digit(b0 as int, 1),
                air_in: b1,
                air_out: b2,
            },
        )
    }
}

/// What the registers of the heater board say.
pub open spec fn heater_state_of(b0: u8, b1: u8) -> Result<HeaterBoardState, FanHeaterErrorView> {
    let heater_level = b1 % 64;
    if heater_level > HEATER_BOARD_MAX_HEATING_LEVEL {
        Err(
            FanHeaterErrorView::BadHeaterBoard(
                "bad heater level: "@ + decimal(heater_level as nat),
            ),
        )
    } else {
        Ok(
            HeaterBoardState {
                heater_disabled: digit(b0 as int, 0),
                watchdog_reset: !digit(b0 as int, 1),
                heater_level,
                relay_1: digit(b1 as int, 6),
                relay_2: digit(b1 as int, 7),
            },
        )
    }
}

/// What a reply of the fan board says.
pub open spec fn fan_reply(reply: Result<Seq<u8>, Seq<char>>) -> Result<
    FanBoardState,
    FanHeaterErrorView,
> {
    match reply {
        Ok(bytes) => fan_state_of(bytes[0], bytes[1], bytes[2]),
        Err(err) => Err(FanHeaterErrorView::bus_error(err)),
    }
}

/// What a reply of the heater board says.
pub open spec fn heater_reply(reply: Result<Seq<u8>, Seq<char>>) -> Result<
    HeaterBoardState,
    FanHeaterErrorView,
> {
    match reply {
        Ok(bytes) => heater_state_of(bytes[0], bytes[1]),
        Err(err) => Err(FanHeaterErrorView::bus_error(err)),
    }
}

/// The byte that sets the heater and the relays: the level is in the lower digits, the relays have
/// one digit each.
pub open spec fn heater_byte(heater_level: u8, relay_1: bool, relay_2: bool) -> u8 {
    (heater_level % 64 + valued(relay_1, 6) + valued(relay_2, 7)) as u8
}

/// The two boards on a bus: what to ask them, and what their replies mean.
#[derive(Clone, Copy, Debug)]
pub struct FanHeaterBoard;

impl FanHeaterBoard {
    fn reset_watchdog(device_address: u8) -> (request: I2cRequest)
        ensures
            request@ == (RequestView::Write {
                address: device_address,
                bytes: seq![0u8, WATCHDOG_BIT],
            }),
    {
        write_register(device_address, 0x00, WATCHDOG_BIT)
    }

    /// Clears the watchdog reset of the fan board.
    pub fn reset_fan_board_watchdog() -> (request: I2cRequest)
        ensures
            request@ == (RequestView::Write {
                address: FAN_BOARD_ADDRESS,
                bytes: seq![0u8, WATCHDOG_BIT],
            }),
    {
        Self::reset_watchdog(FAN_BOARD_ADDRESS)
    }

    /// Clears the watchdog reset of the heater board.
    pub fn reset_heater_board_watchdog() -> (request: I2cRequest)
        ensures
            request@ == (RequestView::Write {
                address: HEATER_BOARD_ADDRESS,
                bytes: seq![0u8, WATCHDOG_BIT],
            }),
    {
        Self::reset_watchdog(HEATER_BOARD_ADDRESS)
    }

    /// Asks for the registers of the fan board.
    pub fn fan_state_request() -> (request: I2cRequest)
        ensures
            request@ == (RequestView::WriteRead {
                address: FAN_BOARD_ADDRESS,
                bytes: seq![0u8],
                len: 3,
            }),
    {
        read_from_register(FAN_BOARD_ADDRESS, 0x00, 3)
    }

    /// Asks for the registers of the heater board.
    pub fn heater_state_request() -> (request: I2cRequest)
        ensures
            request@ == (RequestView::WriteRead {
                address: HEATER_BOARD_ADDRESS,
                bytes: seq![0u8],
                len: 2,
            }),
    {
        read_from_register(HEATER_BOARD_ADDRESS, 0x00, 2)
    }

    /// Decodes the registers of the fan board.
    pub fn read_fan_state(reply: &Result<Vec<u8>, String>) -> (result: Result<
        FanBoardState,
        FanHeaterError,
    >)
        requires
            reply matches Ok(bytes) ==> bytes@.len() == 3,
        ensures
            board_outcome(result) == fan_reply(reply_view(*reply)),
    {
        match reply {
            Err(err) => Err(FanHeaterError::i2c_error(err.as_str())),
            Ok(buf) => {
                proof {
                    lemma_byte_masks(buf@[0]);
                }
                let i2c_disabled: bool = (buf[0] & FAN_BOARD_I2C_DISABLED_BIT) != 0;
                let watchdog_reset: bool = (buf[0] & WATCHDOG_BIT) == 0;
                let air_in: u8 = buf[1];
                let air_out: u8 = buf[2];
                if air_in > FAN_BOARD_MAX_AIR_IN_LEVEL {
                    return Err(
                        FanHeaterError::BadFanBoard(numbered("bad air in level: ", air_in as u64)),
                    );
                }
                if air_out > FAN_BOARD_MAX_AIR_OUT_LEVEL {
                    return Err(
                        FanHeaterError::BadFanBoard(
                            numbered("bad air out level: ", air_out as u64),
                        ),
                    );
                }
                Ok(FanBoardState { i2c_disabled, watchdog_reset, air_in, air_out })
            },
        }
    }

    /// Decodes the registers of the heater board.
    pub fn read_heater_state(reply: &Result<Vec<u8>, String>) -> (result: Result<
        HeaterBoardState,
        FanHeaterError,
    >)
        requires
            reply matches Ok(bytes) ==> bytes@.len() == 2,
        ensures
            board_outcome(result) == heater_reply(reply_view(*reply)),
    {
        match reply {
            Err(err) => Err(FanHeaterError::i2c_error(err.as_str())),
            Ok(buf) => {
                proof {
                    lemma_byte_masks(buf@[0]);
                    lemma_byte_masks(buf@[1]);
                    let b1 = buf@[1];
                    assert(b1 & 0b0011_1111u8 == b1 % 64) by (bit_vector);
                }
                let heater_disabled: bool = (buf[0] & HEATER_BOARD_HEATING_DISABLED_BIT) != 0;
                let watchdog_reset: bool = (buf[0] & WATCHDOG_BIT) == 0;
                let heater_level: u8 = buf[1] & HEATER_BOARD_HEATER_MASK;
                let relay_1: bool = (buf[1] & HEATER_BOARD_RELAY_1_MASK) != 0;
                let relay_2: bool = (buf[1] & HEATER_BOARD_RELAY_2_MASK) != 0;
                if heater_level > HEATER_BOARD_MAX_HEATING_LEVEL {
                    return Err(
                        FanHeaterError::BadHeaterBoard(
                            numbered("bad heater level: ", heater_level as u64),
                        ),
                    );
                }
                Ok(
                    HeaterBoardState {
                        heater_disabled,
                        watchdog_reset,
                        heater_level,
                        relay_1,
                        relay_2,
                    },
                )
            },
        }
    }

    /// Sets the levels of the fans.
    pub fn write_fan_state(air_in: u8, air_out: u8) -> (request: I2cRequest)
        requires
            air_in <= FAN_BOARD_MAX_AIR_IN_LEVEL,
            air_out <= FAN_BOARD_MAX_AIR_OUT_LEVEL,
        ensures
            request@ == (RequestView::Write {
                address: FAN_BOARD_ADDRESS,
                bytes: seq![1u8, air_in, air_out],
            }),
    {
        let mut bytes: Vec<u8> = Vec::new();
        bytes.push(1);
        bytes.push(air_in);
        bytes.push(air_out);
        assert(bytes@ =~= seq![1u8, air_in, air_out]);
        I2cRequest::Write { address: FAN_BOARD_ADDRESS, bytes }
    }

    /// Sets the level of the heater, and the relays.
    pub fn write_heater_state(heater_level: u8, relay_1: bool, relay_2: bool) -> (request:
        I2cRequest)
        requires
            heater_level <= HEATER_BOARD_MAX_HEATING_LEVEL,
        ensures
            request@ == (RequestView::Write {
                address: HEATER_BOARD_ADDRESS,
                bytes: seq![1u8, heater_byte(heater_level, relay_1, relay_2)],
            }),
    {
        let mut state: u8 = heater_level & HEATER_BOARD_HEATER_MASK;
        if relay_1 {
            state = state | HEATER_BOARD_RELAY_1_MASK;
        }
        if relay_2 {
            state = state | HEATER_BOARD_RELAY_2_MASK;
        }
        proof {
            lemma_heater_byte(heater_level, relay_1, relay_2, state);
        }
        write_register(HEATER_BOARD_ADDRESS, 1, state)
    }
}

proof fn lemma_heater_byte(heater_level: u8, relay_1: bool, relay_2: bool, state: u8)
    by (bit_vector)
    requires
        state == {
            let level = heater_level & 0b0011_1111u8;
            let with_1 = if relay_1 {
                level | 0b0100_0000u8
            } else {
                level
            };
            if relay_2 {
                with_1 | 0b1000_0000u8
            } else {
                with_1
            }
        },
    ensures
        state == heater_level % 64 + (if relay_1 {
            64u8
        } else {
            0u8
        }) + (if relay_2 {
            128u8
        } else {
            0u8
        }),
{
}

/// What is written to the boards.
#[derive(Clone, Copy, Debug, PartialEq, Eq, Structural)]
pub struct BoardOutputs {
    pub air_in: u8,
    pub air_out: u8,
    pub heater_level: u8,
    pub relay_1: bool,
    pub relay_2: bool,
}

/// A value, or the highest level if it is larger than that.
pub open spec fn limited(value: u16, max: u8) -> u8 {
    if value > max {
        max
    } else {
        value as u8
    }
}

impl BoardOutputs {
    /// No level is higher than its board allows.
    pub open spec fn wf(self) -> bool {
        &&& self.air_in <= FAN_BOARD_MAX_AIR_IN_LEVEL
        &&& self.air_out <= FAN_BOARD_MAX_AIR_OUT_LEVEL
        &&& self.heater_level <= HEATER_BOARD_MAX_HEATING_LEVEL
    }

    /// What the values of the outputs stand for.
    pub open spec fn of_values(values: Seq<OutputValue>) -> BoardOutputs {
        BoardOutputs {
            air_in: limited(values[0], FAN_BOARD_MAX_AIR_IN_LEVEL),
            air_out: limited(values[1], FAN_BOARD_MAX_AIR_OUT_LEVEL),
            heater_level: limited(values[2], HEATER_BOARD_MAX_HEATING_LEVEL),
            relay_1: values[3] != 0,
            relay_2: values[4] != 0,
        }
    }
}

fn limit(value: u16, max: u8) -> (level: u8)
    ensures
        level == limited(value, max),
{
    if value > max as u16 {
        max
    } else {
        value as u8
    }
}

/// What to write to the boards for the given values of the outputs.
pub fn states_from_output_values(values: &Vec<OutputValue>) -> (outputs: BoardOutputs)
    requires
        values@.len() == 5,
    ensures
        outputs == BoardOutputs::of_values(values@),
        outputs.wf(),
{
    BoardOutputs {
        air_in: limit(values[0], FAN_BOARD_MAX_AIR_IN_LEVEL),
        air_out: limit(values[1], FAN_BOARD_MAX_AIR_OUT_LEVEL),
        heater_level: limit(values[2], HEATER_BOARD_MAX_HEATING_LEVEL),
        relay_1: values[3] != 0,
        relay_2: values[4] != 0,
    }
}

/// Whether a reply has as many bytes as were asked for.
pub open spec fn fits(request: RequestView, reply: Result<Seq<u8>, Seq<char>>) -> bool {
    match (request, reply) {
        (RequestView::WriteRead { len, .. }, Ok(bytes)) => bytes.len() == len,
        _ => true,
    }
}

/// The start of the boards: each is read, and its watchdog is cleared if that is needed.
#[derive(Clone, Copy, Debug, PartialEq, Eq, Structural)]
pub enum FanHeaterSetup {
    ReadFan { resets: u8 },
    ResetFan { resets: u8 },
    ReadHeater { resets: u8 },
    ResetHeater { resets: u8 },
}

/// How the start of the boards goes on.
#[derive(Debug)]
pub enum SetupStep {
    /// There is more to do.
    Next(FanHeaterSetup),
    /// The boards are ready, or cannot be used.
    Done(Result<(), String>),
}

/// A step as contracts see it.
pub enum SetupStepView {
    Next(FanHeaterSetup),
    Done(Result<(), Seq<char>>),
}

impl View for SetupStep {
    type V = SetupStepView;

    open spec fn view(&self) -> SetupStepView {
        match self {
            SetupStep::Next(setup) => SetupStepView::Next(*setup),
            SetupStep::Done(result) => SetupStepView::Done(outcome(*result)),
        }
    }
}

impl FanHeaterSetup {
    /// The first step.
    pub open spec fn start() -> FanHeaterSetup {
        FanHeaterSetup::ReadFan { resets: 0 }
    }

    /// No board's watchdog was reset too often.
    pub open spec fn wf(self) -> bool {
        match self {
            FanHeaterSetup::ReadFan { resets } => resets <= MAX_WATCHDOG_RESETS,
            FanHeaterSetup::ResetFan { resets } => resets <= MAX_WATCHDOG_RESETS,
            FanHeaterSetup::ReadHeater { resets } => resets <= MAX_WATCHDOG_RESETS,
            FanHeaterSetup::ResetHeater { resets } => resets <= MAX_WATCHDOG_RESETS,
        }
    }

    /// The transaction that is due.
    pub open spec fn needs(self) -> RequestView {
        match self {
            FanHeaterSetup::ReadFan { .. } => RequestView::WriteRead {
                address: FAN_BOARD_ADDRESS,
                bytes: seq![0u8],
                len: 3,
            },
            FanHeaterSetup::ResetFan { .. } => RequestView::Write {
                address: FAN_BOARD_ADDRESS,
                bytes: seq![0u8, WATCHDOG_BIT],
            },
            FanHeaterSetup::ReadHeater { .. } => RequestView::WriteRead {
                address: HEATER_BOARD_ADDRESS,
                bytes: seq![0u8],
                len: 2,
            },
            FanHeaterSetup::ResetHeater { .. } => RequestView::Write {
                address: HEATER_BOARD_ADDRESS,
                bytes: seq![0u8, WATCHDOG_BIT],
            },
        }
    }

    /// The step after the reply to the transaction that was due.
    pub open spec fn after(self, reply: Result<Seq<u8>, Seq<char>>) -> SetupStepView {
        match self {
            FanHeaterSetup::ReadFan { resets } => match fan_reply(reply) {
                Err(error) => SetupStepView::Done(Err(error.text())),
                Ok(state) => if !state.watchdog_reset {
                    SetupStepView::Next(FanHeaterSetup::ReadHeater { resets: 0 })
                } else if resets >= MAX_WATCHDOG_RESETS {
                    SetupStepView::Done(Err("fan board has sticky watchdog reset?"@))
                } else {
                    SetupStepView::Next(FanHeaterSetup::ResetFan { resets: (resets + 1) as u8 })
                },
            },
            FanHeaterSetup::ReadHeater { resets } => match heater_reply(reply) {
                Err(error) => SetupStepView::Done(Err(error.text())),
                Ok(state) => if !state.watchdog_reset {
                    SetupStepView::Done(Ok(()))
                } else if resets >= MAX_WATCHDOG_RESETS {
                    SetupStepView::Done(Err("heater board has sticky watchdog reset?"@))
                } else {
                    SetupStepView::Next(FanHeaterSetup::ResetHeater { resets: (resets + 1) as u8 })
                },
            },
            FanHeaterSetup::ResetFan { resets } => match reply {
                Err(err) => SetupStepView::Done(Err(FanHeaterErrorView::bus_error(err).text())),
                Ok(_) => SetupStepView::Next(FanHeaterSetup::ReadFan { resets }),
            },
            FanHeaterSetup::ResetHeater { resets } => match reply {
                Err(err) => SetupStepView::Done(Err(FanHeaterErrorView::bus_error(err).text())),
                Ok(_) => SetupStepView::Next(FanHeaterSetup::ReadHeater { resets }),
            },
        }
    }

    /// How many transactions there can still be, at most.
    pub open spec fn steps_left(self) -> int {
        match self {
            FanHeaterSetup::ReadFan { resets } => 10 - 2 * resets,
            FanHeaterSetup::ResetFan { resets } => 11 - 2 * resets,
            FanHeaterSetup::ReadHeater { resets } => 5 - 2 * resets,
            FanHeaterSetup::ResetHeater { resets } => 6 - 2 * resets,
        }
    }

    /// Starts with the fan board.
    pub fn new() -> (setup: Self)
        ensures
            setup == FanHeaterSetup::start(),
            setup.wf(),
    {
        FanHeaterSetup::ReadFan { resets: 0 }
    }

    /// The transaction that is due.
    pub fn request(self) -> (request: I2cRequest)
        ensures
            request@ == self.needs(),
    {
        match self {
            FanHeaterSetup::ReadFan { .. } => FanHeaterBoard::fan_state_request(),
            FanHeaterSetup::ResetFan { .. } => FanHeaterBoard::reset_fan_board_watchdog(),
            FanHeaterSetup::ReadHeater { .. } => FanHeaterBoard::heater_state_request(),
            FanHeaterSetup::ResetHeater { .. } => FanHeaterBoard::reset_heater_board_watchdog(),
        }
    }

    /// Takes the reply to the transaction that was due.
    pub fn replied(self, reply: Result<Vec<u8>, String>) -> (step: SetupStep)
        requires
            self.wf(),
            fits(self.needs(), reply_view(reply)),
        ensures
            step@ == self.after(reply_view(reply)),
            step@ matches SetupStepView::Next(setup) ==> setup.wf(),
    {
        match self {
            FanHeaterSetup::ReadFan { resets } => match FanHeaterBoard::read_fan_state(&reply) {
                Err(error) => SetupStep::Done(Err(error.text())),
                Ok(state) => if !state.watchdog_reset {
                    SetupStep::Next(FanHeaterSetup::ReadHeater { resets: 0 })
                } else if resets >= MAX_WATCHDOG_RESETS {
                    SetupStep::Done(Err("fan board has sticky watchdog reset?".to_owned()))
                } else {
                    SetupStep::Next(FanHeaterSetup::ResetFan { resets: resets + 1 })
                },
            },
            FanHeaterSetup::ReadHeater { resets } => match FanHeaterBoard::read_heater_state(
                &reply,
            ) {
                Err(error) => SetupStep::Done(Err(error.text())),
                Ok(state) => if !state.watchdog_reset {
                    SetupStep::Done(Ok(()))
                } else if resets >= MAX_WATCHDOG_RESETS {
                    SetupStep::Done(Err("heater board has sticky watchdog reset?".to_owned()))
                } else {
                    SetupStep::Next(FanHeaterSetup::ResetHeater { resets: resets + 1 })
                },
            },
            FanHeaterSetup::ResetFan { resets } => match reply {
                Err(err) => SetupStep::Done(Err(FanHeaterError::i2c_error(err.as_str()).text())),
                Ok(_) => SetupStep::Next(FanHeaterSetup::ReadFan { resets }),
            },
            FanHeaterSetup::ResetHeater { resets } => match reply {
                Err(err) => SetupStep::Done(Err(FanHeaterError::i2c_error(err.as_str()).text())),
                Ok(_) => SetupStep::Next(FanHeaterSetup::ReadHeater { resets }),
            },
        }
    }
}

/// What the boards said after they were written to.
#[derive(Clone, Copy, Debug, PartialEq, Eq, Structural)]
pub struct BoardReadings {
    pub air_in: u8,
    pub air_out: u8,
    pub heater_level: u8,
    pub relay_1: bool,
    pub relay_2: bool,
    pub i2c_disabled: bool,
    pub heater_disabled: bool,
}

/// How a cycle ended, for statistics.
#[derive(Clone, Copy, Debug, PartialEq, Eq, Structural)]
pub enum CycleCounter {
    Success,
    I2cError,
    BadFanBoard,
    BadHeaterBoard,
    FanBoardWatchdogReset,
    HeaterBoardWatchdogReset,
}

/// One exchange with the boards: both are written to, then both are read.
#[derive(Clone, Copy, Debug, PartialEq, Eq, Structural)]
pub enum FanHeaterCycle {
    WriteFan { outputs: BoardOutputs },
    WriteHeater { outputs: BoardOutputs },
    ReadFan,
    ReadHeater { fan: FanBoardState },
    ResetFan,
    ResetHeater,
}

/// How an exchange goes on.
#[derive(Debug)]
pub enum CycleStep {
    /// There is more to do.
    Next(FanHeaterCycle),
    /// The exchange is over.
    Done { counter: CycleCounter, result: Result<BoardReadings, String> },
}

/// A step as contracts see it.
pub enum CycleStepView {
    Next(FanHeaterCycle),
    Done { counter: CycleCounter, result: Result<BoardReadings, Seq<char>> },
}

impl View for CycleStep {
    type V = CycleStepView;

    open spec fn view(&self) -> CycleStepView {
        match self {
            CycleStep::Next(cycle) => CycleStepView::Next(*cycle),
            CycleStep::Done { counter, result } => CycleStepView::Done {
                counter: *counter,
                result: outcome(*result),
            },
        }
    }
}

/// The end of an exchange that failed.
pub open spec fn failed_cycle(error: FanHeaterErrorView) -> CycleStepView {
    CycleStepView::Done {
        counter: match error {
            FanHeaterErrorView::Bus(_) => CycleCounter::I2cError,
            FanHeaterErrorView::BadFanBoard(_) => CycleCounter::BadFanBoard,
            FanHeaterErrorView::BadHeaterBoard(_) => CycleCounter::BadHeaterBoard,
        },
        result: Err("unable to write/read values: "@ + error.text()),
    }
}

fn fail(error: FanHeaterError) -> (step: CycleStep)
    ensures
        step@ == failed_cycle(error@),
{
    let text = error.text();
    let counter: CycleCounter = match error {
        FanHeaterError::Bus(_) => CycleCounter::I2cError,
        FanHeaterError::BadFanBoard(_) => CycleCounter::BadFanBoard,
        FanHeaterError::BadHeaterBoard(_) => CycleCounter::BadHeaterBoard,
    };
    CycleStep::Done {
        counter,
        result: Err(concatenated("unable to write/read values: ", text.as_str())),
    }
}

impl FanHeaterCycle {
    /// What is to be written is within the limits of the boards.
    pub open spec fn wf(self) -> bool {
        match self {
            FanHeaterCycle::WriteFan { outputs } => outputs.wf(),
            FanHeaterCycle::WriteHeater { outputs } => outputs.wf(),
            _ => true,
        }
    }

    /// The transaction that is due.
    pub open spec fn needs(self) -> RequestView {
        match self {
            FanHeaterCycle::WriteFan { outputs } => RequestView::Write {
                address: FAN_BOARD_ADDRESS,
                bytes: seq![1u8, outputs.air_in, outputs.air_out],
            },
            FanHeaterCycle::WriteHeater { outputs } => RequestView::Write {
                address: HEATER_BOARD_ADDRESS,
                bytes: seq![
                    1u8,
                    heater_byte(outputs.heater_level, outputs.relay_1, outputs.relay_2),
                ],
            },
            FanHeaterCycle::ReadFan => FanHeaterSetup::ReadFan { resets: 0 }.needs(),
            FanHeaterCycle::ReadHeater { .. } => FanHeaterSetup::ReadHeater { resets: 0 }.needs(),
            FanHeaterCycle::ResetFan => FanHeaterSetup::ResetFan { resets: 0 }.needs(),
            FanHeaterCycle::ResetHeater => FanHeaterSetup::ResetHeater { resets: 0 }.needs(),
        }
    }

    /// The step after the reply to the transaction that was due. Whether a watchdog could be reset
    /// makes no difference.
    pub open spec fn after(self, reply: Result<Seq<u8>, Seq<char>>) -> CycleStepView {
        match self {
            FanHeaterCycle::WriteFan { outputs } => match reply {
                Err(err) => failed_cycle(FanHeaterErrorView::bus_error(err)),
                Ok(_) => CycleStepView::Next(FanHeaterCycle::WriteHeater { outputs }),
            },
            FanHeaterCycle::WriteHeater { .. } => match reply {
                Err(err) => failed_cycle(FanHeaterErrorView::bus_error(err)),
                Ok(_) => CycleStepView::Next(FanHeaterCycle::ReadFan),
            },
            FanHeaterCycle::ReadFan => match fan_reply(reply) {
                Err(error) => failed_cycle(error),
                Ok(fan) => CycleStepView::Next(FanHeaterCycle::ReadHeater { fan }),
            },
            FanHeaterCycle::ReadHeater { fan } => match heater_reply(reply) {
                Err(error) => failed_cycle(error),
                Ok(heater) => if fan.watchdog_reset {
                    CycleStepView::Next(FanHeaterCycle::ResetFan)
                } else if heater.watchdog_reset {
                    CycleStepView::Next(FanHeaterCycle::ResetHeater)
                } else {
                    CycleStepView::Done {
                        counter: CycleCounter::Success,
                        result: Ok(
                            BoardReadings {
                                air_in: fan.air_in,
                                air_out: fan.air_out,
                                heater_level: heater.heater_level,
                                relay_1: heater.relay_1,
                                relay_2: heater.relay_2,
                                i2c_disabled: fan.i2c_disabled,
                                heater_disabled: heater.heater_disabled,
                            },
                        ),
                    }
                },
            },
            FanHeaterCycle::ResetFan => CycleStepView::Done {
                counter: CycleCounter::FanBoardWatchdogReset,
                result: Err("fan board watchdog reset"@),
            },
            FanHeaterCycle::ResetHeater => CycleStepView::Done {
                counter: CycleCounter::HeaterBoardWatchdogReset,
                result: Err("heater board watchdog reset"@),
            },
        }
    }

    /// Starts an exchange.
    pub fn new(outputs: BoardOutputs) -> (cycle: Self)
        requires
            outputs.wf(),
        ensures
            cycle == (FanHeaterCycle::WriteFan { outputs }),
            cycle.wf(),
    {
        FanHeaterCycle::WriteFan { outputs }
    }

    /// The transaction that is due.
    pub fn request(self) -> (request: I2cRequest)
        requires
            self.wf(),
        ensures
            request@ == self.needs(),
    {
        match self {
            FanHeaterCycle::WriteFan { outputs } => FanHeaterBoard::write_fan_state(
                outputs.air_in,
                outputs.air_out,
            ),
            FanHeaterCycle::WriteHeater { outputs } => FanHeaterBoard::write_heater_state(
                outputs.heater_level,
                outputs.relay_1,
                outputs.relay_2,
            ),
            FanHeaterCycle::ReadFan => FanHeaterBoard::fan_state_request(),
            FanHeaterCycle::ReadHeater { .. } => FanHeaterBoard::heater_state_request(),
            FanHeaterCycle::ResetFan => FanHeaterBoard::reset_fan_board_watchdog(),
            FanHeaterCycle::ResetHeater => FanHeaterBoard::reset_heater_board_watchdog(),
        }
    }

    /// Takes the reply to the transaction that was due.
    pub fn replied(self, reply: Result<Vec<u8>, String>) -> (step: CycleStep)
        requires
            self.wf(),
            fits(self.needs(), reply_view(reply)),
        ensures
            step@ == self.after(reply_view(reply)),
            step@ matches CycleStepView::Next(cycle) ==> cycle.wf(),
    {
        match self {
            FanHeaterCycle::WriteFan { outputs } => match reply {
                Err(err) => fail(FanHeaterError::i2c_error(err.as_str())),
                Ok(_) => CycleStep::Next(FanHeaterCycle::WriteHeater { outputs }),
            },
            FanHeaterCycle::WriteHeater { .. } => match reply {
                Err(err) => fail(FanHeaterError::i2c_error(err.as_str())),
                Ok(_) => CycleStep::Next(FanHeaterCycle::ReadFan),
            },
            FanHeaterCycle::ReadFan => match FanHeaterBoard::read_fan_state(&reply) {
                Err(error) => fail(error),
                Ok(fan) => CycleStep::Next(FanHeaterCycle::ReadHeater { fan }),
            },
            FanHeaterCycle::ReadHeater { fan } => match FanHeaterBoard::read_heater_state(&reply) {
                Err(error) => fail(error),
                Ok(heater) => if fan.watchdog_reset {
                    CycleStep::Next(FanHeaterCycle::ResetFan)
                } else if heater.watchdog_reset {
                    CycleStep::Next(FanHeaterCycle::ResetHeater)
                } else {
                    CycleStep::Done {
                        counter: CycleCounter::Success,
                        result: Ok(
                            BoardReadings {
                                air_in: fan.air_in,
                                air_out: fan.air_out,
                                heater_level: heater.heater_level,
                                relay_1: heater.relay_1,
                                relay_2: heater.relay_2,
                                i2c_disabled: fan.i2c_disabled,
                                heater_disabled: heater.heater_disabled,
                            },
                        ),
                    }
                },
            },
            FanHeaterCycle::ResetFan => CycleStep::Done {
                counter: CycleCounter::FanBoardWatchdogReset,
                result: Err("fan board watchdog reset".to_owned()),
            },
            FanHeaterCycle::ResetHeater => CycleStep::Done {
                counter: CycleCounter::HeaterBoardWatchdogReset,
                result: Err("heater board watchdog reset".to_owned()),
            },
        }
    }
}

/// The value of a relay.
pub open spec fn relay_value(on: bool) -> OutputValue {
    if on {
        HIGH
    } else {
        LOW
    }
}

/// What the boards said, as values of the outputs.
pub open spec fn reading_values(readings: BoardReadings) -> Seq<OutputValue> {
    seq![
        readings.air_in as u16,
        readings.air_out as u16,
        readings.heater_level as u16,
        relay_value(readings.relay_1),
        relay_value(readings.relay_2),
    ]
}

/// The boards as a device: five outputs, and two inputs behind them.
#[derive(Debug)]
pub struct FanHeater {
    pub core: DeviceRWCore,
    pub read_core: DeviceReadCore,
}

impl FanHeater {
    /// The device has all its ports.
    pub open spec fn wf(&self) -> bool {
        &&& self.core.wf()
        &&& self.core.read_core@.len() == 5
        &&& self.read_core@.len() == 2
    }

    /// Checks a configuration.
    pub fn check_config(cfg: &FanHeaterConfig) -> (result: Result<(), String>)
        ensures
            outcome(result) == (if cfg.update_interval_seconds >= 1 {
                Ok(())
            } else {
                Err("update_interval_seconds must be at least 1"@)
            }),
    {
        if cfg.update_interval_seconds >= 1 {
            Ok(())
        } else {
            Err("update_interval_seconds must be at least 1".to_owned())
        }
    }

    /// Creates the device, after the boards were started.
    pub fn new(alias: String) -> (device: Self)
        ensures
            device.wf(),
            device.core.read_core@ == Seq::new(
                5,
                |i: int| PortView::fresh(InputValueType::Continuous),
            ),
            device.core.buffered_values@ == Seq::new(5, |i: int| 0u16),
            device.core.scalings@ == Seq::new(5, |i: int| ValueScaling::full_range()),
            !device.core.dirty,
            device.core.last_error is None,
            device.core.read_core.alias_text() == alias@,
            device.read_core@ == Seq::new(2, |i: int| PortView::fresh(InputValueType::Binary)),
            device.read_core.alias_text() == alias@,
    {
        FanHeater {
            core: DeviceRWCore::new(alias.clone(), 5, ValueScaling::default()),
            read_core: DeviceReadCore::uniform(alias, InputValueType::Binary, 2),
        }
    }

    /// The exchange that brings the buffered values to the boards.
    pub fn begin_cycle(&self) -> (cycle: FanHeaterCycle)
        requires
            self.wf(),
        ensures
            cycle == (FanHeaterCycle::WriteFan {
                outputs: BoardOutputs::of_values(self.core.buffered_values@),
            }),
            cycle.wf(),
    {
        FanHeaterCycle::new(states_from_output_values(&self.core.buffered_values))
    }

    /// Puts the outcome of an exchange on the ports.
    pub fn finish_cycle(&mut self, result: &Result<BoardReadings, String>, ts: Timestamp)
        requires
            old(self).wf(),
        ensures
            final(self).wf(),
            final(self).core.buffered_values == old(self).core.buffered_values,
            final(self).core.scalings == old(self).core.scalings,
            final(self).core.read_core.alias_text() == old(self).core.read_core.alias_text(),
            final(self).read_core.alias_text() == old(self).read_core.alias_text(),
            match *result {
                Ok(readings) => {
                    &&& final(self).core.read_core@ == values_written(
                        old(self).core.read_core@,
                        reading_values(readings),
                        ts,
                        false,
                        false,
                    )
                    &&& final(self).core.dirty == old(self).core.dirty
                    &&& final(self).core.error_text() == old(self).core.error_text()
                    &&& final(self).read_core@ == seq![
                        old(self).read_core@[0].updated(
                            ts,
                            Ok(InputValue::Binary(readings.i2c_disabled)),
                            false,
                            false,
                        ),
                        old(self).read_core@[1].updated(
                            ts,
                            Ok(InputValue::Binary(readings.heater_disabled)),
                            false,
                            false,
                        ),
                    ]
                },
                Err(message) => {
                    &&& final(self).core.read_core@ == all_updated(
                        old(self).core.read_core@,
                        ts,
                        Err(message@),
                        true,
                        false,
                    )
                    &&& final(self).core.dirty
                    &&& final(self).core.error_text() == Some(message@)
                    &&& final(self).read_core@ == all_updated(
                        old(self).read_core@,
                        ts,
                        Err(message@),
                        true,
                        false,
                    )
                },
            },
    {
        match result {
            Ok(readings) => {
                let mut values: Vec<OutputValue> = Vec::new();
                values.push(readings.air_in as u16);
                values.push(readings.air_out as u16);
                values.push(readings.heater_level as u16);
                values.push(if readings.relay_1 { HIGH } else { LOW });
                values.push(if readings.relay_2 { HIGH } else { LOW });
                assert(values@ =~= reading_values(*readings));
                self.core.finish_update(Ok(values), ts, false, false);
                self.read_core.update_value_and_generate_events(
                    ts,
                    0,
                    Ok(InputValue::Binary(readings.i2c_disabled)),
                    false,
                    false,
                );
                self.read_core.update_value_and_generate_events(
                    ts,
                    1,
                    Ok(InputValue::Binary(readings.heater_disabled)),
                    false,
                    false,
                );
            },
            Err(message) => {
                self.core.finish_update(Err(message.clone()), ts, false, false);
                self.read_core.set_error_on_all_ports(ts, message.as_str());
            },
        }
    }

    /// Retrieves the error of previous updates. There is nothing to trigger, as the device is
    /// updated regularly anyway.
    pub fn update(&mut self) -> (result: Result<(), String>)
        requires
            old(self).wf(),
        ensures
            final(self).wf(),
            outcome(result) == retrieved(old(self).core.error_text()),
            final(self).core.last_error is None,
            final(self).core.read_core == old(self).core.read_core,
            final(self).core.buffered_values == old(self).core.buffered_values,
            final(self).core.scalings == old(self).core.scalings,
            final(self).core.dirty == old(self).core.dirty,
            final(self).read_core == old(self).read_core,
    {
        self.core.update()
    }

    /// The generic alias of a port.
    pub fn port_alias(port: u8) -> (result: Result<String, String>)
        ensures
            match result {
                Ok(alias) => alias@ == Self::port_name(port as int) && port < 7,
                Err(message) => message@ == "Fan/Heater boards have 7 ports"@ && port >= 7,
            },
    {
        match port {
            0 => Ok("fan-in-level".to_owned()),
            1 => Ok("fan-out-level".to_owned()),
            2 => Ok("heater-level".to_owned()),
            3 => Ok("heater-relay-1".to_owned()),
            4 => Ok("heater-relay-2".to_owned()),
            5 => Ok("fan-i2c-disabled".to_owned()),
            6 => Ok("heater-disabled".to_owned()),
            _ => Err("Fan/Heater boards have 7 ports".to_owned()),
        }
    }

    /// The generic alias of a port.
    pub open spec fn port_name(port: int) -> Seq<char> {
        if port == 0 {
            "fan-in-level"@
        } else if port == 1 {
            "fan-out-level"@
        } else if port == 2 {
            "heater-level"@
        } else if port == 3 {
            "heater-relay-1"@
        } else if port == 4 {
            "heater-relay-2"@
        } else if port == 5 {
            "fan-i2c-disabled"@
        } else {
            "heater-disabled"@
        }
    }

    /// Starts to listen to one of the outputs, and sets its scaling, if one is given.
    pub fn get_output_port(&mut self, port: u8, scaling: Option<ValueScaling>) -> (result: Result<
        (),
        String,
    >)
        requires
            old(self).wf(),
            port < 5 ==> old(self).core.read_core@[port as int].events is None,
        ensures
            final(self).wf(),
            final(self).read_core == old(self).read_core,
            final(self).core.buffered_values == old(self).core.buffered_values,
            final(self).core.dirty == old(self).core.dirty,
            final(self).core.last_error == old(self).core.last_error,
            final(self).core.read_core.alias_text() == old(self).core.read_core.alias_text(),
            port < 5 ==> {
                &&& result is Ok
                &&& final(self).core.read_core@ == old(self).core.read_core@.update(
                    port as int,
                    old(self).core.read_core@[port as int].listened_to(),
                )
                &&& final(self).core.scalings@ == (match scaling {
                    Some(s) => old(self).core.scalings@.update(port as int, s),
                    None => old(self).core.scalings@,
                })
            },
            port >= 5 ==> {
                &&& outcome(result) == Err::<(), Seq<char>>("Fan/Heater boards have 5 I/O ports"@)
                &&& final(self).core == old(self).core
            },
    {
        if port >= 5 {
            return Err("Fan/Heater boards have 5 I/O ports".to_owned());
        }
        self.core.get_output_port(port, scaling)
    }

    /// Starts to listen to one of the inputs, which come behind the outputs.
    pub fn get_input_port(&mut self, port: u8) -> (result: Result<InputValueType, String>)
        requires
            old(self).wf(),
            5 <= port < 7 ==> old(self).read_core@[port - 5].events is None,
        ensures
            final(self).wf(),
            final(self).core == old(self).core,
            final(self).read_core.alias_text() == old(self).read_core.alias_text(),
            5 <= port < 7 ==> {
                &&& result == Ok::<InputValueType, String>(
                    old(self).read_core@[port - 5].value_type,
                )
                &&& final(self).read_core@ == old(self).read_core@.update(
                    port - 5,
                    old(self).read_core@[port - 5].listened_to(),
                )
            },
            !(5 <= port < 7) ==> {
                &&& outcome(result) == Err::<InputValueType, Seq<char>>(
                    "Fan/Heater boards have two readonly ports: 5=>fan-i2c-disabled, 6=>heater-disabled"@,
                )
                &&& final(self).read_core == old(self).read_core
            },
    {
        if !(port >= 5 && port < 7) {
            return Err(
                "Fan/Heater boards have two readonly ports: 5=>fan-i2c-disabled, 6=>heater-disabled".to_owned(),
            );
        }
        self.read_core.get_input_port(port - 5)
    }
}

/// Every transaction of the start brings its end nearer. There are ten at most: each board is
/// read up to three times, and its watchdog is reset up to twice.
pub proof fn law_setup_ends(setup: FanHeaterSetup, reply: Result<Seq<u8>, Seq<char>>)
    requires
        setup.wf(),
    ensures
        FanHeaterSetup::start().steps_left() == 10,
        setup.steps_left() >= 1,
        setup.after(reply) matches SetupStepView::Next(next) ==> next.wf() && next.steps_left()
            < setup.steps_left(),
{
}

/// The heater board reads back the level and the relays that were written to it.
pub proof fn law_heater_byte_reads_back(b0: u8, heater_level: u8, relay_1: bool, relay_2: bool)
    requires
        heater_level <= HEATER_BOARD_MAX_HEATING_LEVEL,
    ensures
        heater_state_of(b0, heater_byte(heater_level, relay_1, relay_2)) matches Ok(state)
            && state.heater_level == heater_level && state.relay_1 == relay_1 && state.relay_2
            == relay_2,
{
}

/// After an exchange in which every transaction succeeds and no watchdog had to step in, the
/// levels that the boards report are put on the ports: what the boards were told, if they did as
/// they were told.
pub proof fn law_good_cycle_reports_outputs(
    outputs: BoardOutputs,
    fan_bytes: Seq<u8>,
    heater_bytes: Seq<u8>,
)
    requires
        outputs.wf(),
        fan_bytes.len() == 3,
        heater_bytes.len() == 2,
        digit(fan_bytes[0] as int, 1),
        digit(heater_bytes[0] as int, 1),
        fan_bytes[1] == outputs.air_in,
        fan_bytes[2] == outputs.air_out,
        heater_bytes[1] == heater_byte(outputs.heater_level, outputs.relay_1, outputs.relay_2),
    ensures
        ({
            let start = FanHeaterCycle::WriteFan { outputs };
            &&& start.after(Ok(Seq::empty())) matches CycleStepView::Next(second)
            &&& second.after(Ok(Seq::empty())) matches CycleStepView::Next(third)
            &&& third.after(Ok(fan_bytes)) matches CycleStepView::Next(fourth)
            &&& fourth.after(Ok(heater_bytes)) matches CycleStepView::Done { counter, result }
            &&& counter == CycleCounter::Success
            &&& result matches Ok(readings)
            &&& readings.air_in == outputs.air_in
            &&& readings.air_out == outputs.air_out
            &&& readings.heater_level == outputs.heater_level
            &&& readings.relay_1 == outputs.relay_1
            &&& readings.relay_2 == outputs.relay_2
        }),
{
    law_heater_byte_reads_back(
        heater_bytes[0],
        outputs.heater_level,
        outputs.relay_1,
        outputs.relay_2,
    );
}

/// The byte for the heater board has the level in its lower six bits, and one bit for each relay:
/// that of the mask 64 is set exactly if the first relay is to be on, that of the mask 128 exactly
/// if the second one is.
pub proof fn law_heater_bits_are_written(heater_level: u8, relay_1: bool, relay_2: bool)
    requires
        heater_level <= 30,
    ensures
        HEATER_BOARD_RELAY_1_MASK == 64,
        HEATER_BOARD_RELAY_2_MASK == 128,
        ({
            let byte = heater_byte(heater_level, relay_1, relay_2);
            &&& byte % 64 == heater_level
            &&& byte / 64 % 2 == 1 <==> relay_1
            &&& byte / 128 == 1 <==> relay_2
            &&& byte & HEATER_BOARD_RELAY_1_MASK != 0 <==> relay_1
            &&& byte & HEATER_BOARD_RELAY_2_MASK != 0 <==> relay_2
        }),
{
    lemma_byte_masks(heater_byte(heater_level, relay_1, relay_2));
}

/// The same bits tell the level and the relays in what is read from the heater board. Of its first
/// register the lowest bit tells whether heating is disabled, and the next one is not set after
/// the watchdog has stepped in. Levels above 30 are refused.
pub proof fn law_heater_bits_are_read(b0: u8, b1: u8)
    ensures
        b1 % 64 > 30 ==> heater_state_of(b0, b1) == Err::<HeaterBoardState, FanHeaterErrorView>(
            FanHeaterErrorView::BadHeaterBoard(
                "bad heater level: "@ + decimal((b1 % 64) as nat),
            ),
        ),
        b1 % 64 <= 30 ==> {
            &&& heater_state_of(b0, b1) matches Ok(state)
            &&& state.heater_level == b1 % 64
            &&& state.relay_1 <==> b1 & 64u8 != 0
            &&& state.relay_2 <==> b1 & 128u8 != 0
            &&& state.heater_disabled <==> b0 & 1u8 != 0
            &&& state.watchdog_reset <==> b0 & 2u8 == 0
        },
{
    lemma_byte_masks(b0);
    lemma_byte_masks(b1);
}

/// The fan board tells the level of the incoming air in its second register, at most 6, and that of
/// the outgoing air in its third one, at most 4. Of its first register the lowest bit tells whether
/// it can be controlled, and the next one is not set after the watchdog has stepped in.
pub proof fn law_fan_registers_are_read(b0: u8, b1: u8, b2: u8)
    ensures
        b1 > 6 ==> fan_state_of(b0, b1, b2) == Err::<FanBoardState, FanHeaterErrorView>(
            FanHeaterErrorView::BadFanBoard("bad air in level: "@ + decimal(b1 as nat)),
        ),
        b1 <= 6 && b2 > 4 ==> fan_state_of(b0, b1, b2) == Err::<FanBoardState, FanHeaterErrorView>(
            FanHeaterErrorView::BadFanBoard("bad air out level: "@ + decimal(b2 as nat)),
        ),
        b1 <= 6 && b2 <= 4 ==> {
            &&& fan_state_of(b0, b1, b2) matches Ok(state)
            &&& state.air_in == b1
            &&& state.air_out == b2
            &&& state.i2c_disabled <==> b0 & 1u8 != 0
            &&& state.watchdog_reset <==> b0 & 2u8 == 0
        },
{
    lemma_byte_masks(b0);
}

/// The values of the outputs reach the boards: the incoming and the outgoing air the fan board,
/// the level of the heater and the relays the heater board. Levels are cut off at the highest one
/// of each board, and a relay is on unless its value is zero. Then both boards are read.
pub proof fn law_outputs_reach_the_boards(
    values: Seq<OutputValue>,
    reply: Seq<u8>,
    fan_bytes: Seq<u8>,
)
    requires
        values.len() == 5,
        fan_bytes.len() == 3,
        fan_bytes[1] <= 6,
        fan_bytes[2] <= 4,
    ensures
        ({
            let air_in: int = if values[0] <= 6 {
                values[0] as int
            } else {
                6
            };
            let air_out: int = if values[1] <= 4 {
                values[1] as int
            } else {
                4
            };
            let level: int = if values[2] <= 30 {
                values[2] as int
            } else {
                30
            };
            let start = FanHeaterCycle::WriteFan { outputs: BoardOutputs::of_values(values) };
            &&& start.needs() == (RequestView::Write {
                address: 0x22,
                bytes: seq![1u8, air_in as u8, air_out as u8],
            })
            &&& start.after(Ok(reply)) matches CycleStepView::Next(second)
            &&& second.needs() matches RequestView::Write { address, bytes }
            &&& address == 0x23
            &&& bytes.len() == 2
            &&& bytes[0] == 1
            &&& bytes[1] % 64 == level
            &&& bytes[1] / 64 % 2 == 1 <==> values[3] != 0
            &&& bytes[1] / 128 == 1 <==> values[4] != 0
            &&& second.after(Ok(reply)) matches CycleStepView::Next(third)
            &&& third.needs() == (RequestView::WriteRead {
                address: 0x22,
                bytes: seq![0u8],
                len: 3,
            })
            &&& third.after(Ok(fan_bytes)) matches CycleStepView::Next(fourth)
            &&& fourth.needs() == (RequestView::WriteRead {
                address: 0x23,
                bytes: seq![0u8],
                len: 2,
            })
        }),
{
    let outputs = BoardOutputs::of_values(values);
    law_heater_bits_are_written(outputs.heater_level, outputs.relay_1, outputs.relay_2);
}

/// What the boards said is told in the order of the outputs; a relay that is on has the highest
/// value, one that is off the lowest.
pub proof fn law_readings_in_the_order_of_outputs(readings: BoardReadings)
    ensures
        ({
            let values = reading_values(readings);
            &&& values.len() == 5
            &&& values[0] == readings.air_in
            &&& values[1] == readings.air_out
            &&& values[2] == readings.heater_level
            &&& values[3] == (if readings.relay_1 {
                65535
            } else {
                0int
            })
            &&& values[4] == (if readings.relay_2 {
                65535
            } else {
                0int
            })
        }),
{
}

/// What is read from the boards at the end of an exchange is what is reported, unless one of them
/// had to be taken over by its watchdog. Then that is acknowledged at this board, the fan board
/// first, and the exchange counts as failed.
pub proof fn law_exchange_ends(
    b0: u8,
    air_in: u8,
    air_out: u8,
    heater_bytes: Seq<u8>,
    reply: Result<Seq<u8>, Seq<char>>,
)
    requires
        air_in <= 6,
        air_out <= 4,
        heater_bytes.len() == 2,
        heater_bytes[1] % 64 <= 30,
    ensures
        ({
            let fan = fan_state_of(b0, air_in, air_out)->Ok_0;
            let end = (FanHeaterCycle::ReadHeater { fan }).after(Ok(heater_bytes));
            let h0 = heater_bytes[0];
            let h1 = heater_bytes[1];
            if b0 & 2u8 == 0 {
                &&& end matches CycleStepView::Next(reset)
                &&& reset.needs() == (RequestView::Write { address: 0x22, bytes: seq![0u8, 2u8] })
                &&& reset.after(reply) matches CycleStepView::Done { counter, result }
                &&& counter is FanBoardWatchdogReset
                &&& result == Err::<BoardReadings, Seq<char>>("fan board watchdog reset"@)
            } else if h0 & 2u8 == 0 {
                &&& end matches CycleStepView::Next(reset)
                &&& reset.needs() == (RequestView::Write { address: 0x23, bytes: seq![0u8, 2u8] })
                &&& reset.after(reply) matches CycleStepView::Done { counter, result }
                &&& counter is HeaterBoardWatchdogReset
                &&& result == Err::<BoardReadings, Seq<char>>("heater board watchdog reset"@)
            } else {
                &&& end matches CycleStepView::Done { counter, result }
                &&& counter is Success
                &&& result matches Ok(readings)
                &&& readings.air_in == air_in
                &&& readings.air_out == air_out
                &&& readings.heater_level == h1 % 64
                &&& readings.relay_1 <==> h1 & 64u8 != 0
                &&& readings.relay_2 <==> h1 & 128u8 != 0
                &&& readings.i2c_disabled <==> b0 & 1u8 != 0
                &&& readings.heater_disabled <==> h0 & 1u8 != 0
            }
        }),
{
    law_fan_registers_are_read(b0, air_in, air_out);
    law_heater_bits_are_read(heater_bytes[0], heater_bytes[1]);
}

/// A transaction that fails ends the exchange, with an error that tells why.
pub proof fn law_failed_transaction_ends_the_exchange(cycle: FanHeaterCycle, err: Seq<char>)
    requires
        !(cycle is ResetFan),
        !(cycle is ResetHeater),
    ensures
        ({
            &&& cycle.after(Err(err)) matches CycleStepView::Done { counter, result }
            &&& counter is I2cError
            &&& result == Err::<BoardReadings, Seq<char>>(
                "unable to write/read values: "@ + ("Bus"@ + "("@ + quoted_text(
                    "I2C operation failed: "@ + err,
                ) + ")"@),
            )
        }),
{
}

/// At the start each board is read until its watchdog has not stepped in: the second bit of its
/// first register is set. Before that it is told so at this board, up to twice.
pub proof fn law_boards_are_started(
    setup: FanHeaterSetup,
    bytes: Seq<u8>,
    resets: u8,
    done: Seq<u8>,
)
    requires
        resets <= 2,
        bytes.len() == 3,
        bytes[1] <= 4,
        bytes[2] <= 4,
    ensures
        FanHeaterSetup::start().needs() == (RequestView::WriteRead {
            address: 0x22,
            bytes: seq![0u8],
            len: 3,
        }),
        setup == (FanHeaterSetup::ReadFan { resets }) ==> {
            let step = setup.after(Ok(bytes));
            if bytes[0] & 2u8 != 0 {
                step == SetupStepView::Next(FanHeaterSetup::ReadHeater { resets: 0 })
            } else if resets == 2 {
                step == SetupStepView::Done(
                    Err::<(), Seq<char>>("fan board has sticky watchdog reset?"@),
                )
            } else {
                &&& step matches SetupStepView::Next(reset)
                &&& reset.needs() == (RequestView::Write { address: 0x22, bytes: seq![0u8, 2u8] })
                &&& reset.after(Ok(done)) == SetupStepView::Next(
                    FanHeaterSetup::ReadFan { resets: (resets + 1) as u8 },
                )
            }
        },
        setup == (FanHeaterSetup::ReadHeater { resets }) ==> {
            let step = setup.after(Ok(bytes.take(2)));
            &&& setup.needs() == (RequestView::WriteRead {
                address: 0x23,
                bytes: seq![0u8],
                len: 2,
            })
            &&& if bytes[0] & 2u8 != 0 {
                step == SetupStepView::Done(Ok::<(), Seq<char>>(()))
            } else if resets == 2 {
                step == SetupStepView::Done(
                    Err::<(), Seq<char>>("heater board has sticky watchdog reset?"@),
                )
            } else {
                &&& step matches SetupStepView::Next(reset)
                &&& reset.needs() == (RequestView::Write { address: 0x23, bytes: seq![0u8, 2u8] })
                &&& reset.after(Ok(done)) == SetupStepView::Next(
                    FanHeaterSetup::ReadHeater { resets: (resets + 1) as u8 },
                )
            }
        },
{
    lemma_byte_masks(bytes[0]);
}

/// A board that tells of a level higher than its highest one ends the exchange. The error names the
/// board and the level, and it is counted for that board.
pub proof fn law_bad_board_ends_the_exchange(
    fan: FanBoardState,
    fan_bytes: Seq<u8>,
    heater_bytes: Seq<u8>,
)
    requires
        fan_bytes.len() == 3,
        heater_bytes.len() == 2,
    ensures
        fan_bytes[1] > 6 ==> FanHeaterCycle::ReadFan.after(Ok(fan_bytes)) == (CycleStepView::Done {
            counter: CycleCounter::BadFanBoard,
            result: Err(
                "unable to write/read values: "@ + ("BadFanBoard"@ + "("@ + quoted_text(
                    "bad air in level: "@ + decimal(fan_bytes[1] as nat),
                ) + ")"@),
            ),
        }),
        fan_bytes[1] <= 6 && fan_bytes[2] > 4 ==> FanHeaterCycle::ReadFan.after(Ok(fan_bytes)) == (
        CycleStepView::Done {
            counter: CycleCounter::BadFanBoard,
            result: Err(
                "unable to write/read values: "@ + ("BadFanBoard"@ + "("@ + quoted_text(
                    "bad air out level: "@ + decimal(fan_bytes[2] as nat),
                ) + ")"@),
            ),
        }),
        heater_bytes[1] % 64 > 30 ==> (FanHeaterCycle::ReadHeater { fan }).after(Ok(heater_bytes))
            == (CycleStepView::Done {
            counter: CycleCounter::BadHeaterBoard,
            result: Err(
                "unable to write/read values: "@ + ("BadHeaterBoard"@ + "("@ + quoted_text(
                    "bad heater level: "@ + decimal((heater_bytes[1] % 64) as nat),
                ) + ")"@),
            ),
        }),
{
}

} // verus!
