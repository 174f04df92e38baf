//! The button expander board.
//!
//! The board sends the state of its sixteen pins three times over, each time with a checksum and
//! rotated by another number of bits. One good transmission is enough.
use vstd::prelude::*;

use crate::bits::{
    byte_of, digit, lemma_byte_masks, lemma_byte_of, lemma_word_of, place_value, word_of,
};
use crate::buttons::{
    button_port, button_press, join_pins, pin_set, update_buttons, PressView,
};
use crate::device_core::{all_updated, DeviceReadCore, PortView};
use crate::i2c::{read_from_register, reply_view, write_register, I2cRequest, RequestView};
use crate::failure::{failed, traced, within, Failure};
use crate::text::{concatenated, decimal, numbered, quoted, quoted_text};
use crate::value::{outcome, InputValueType, Timestamp};

verus! {

pub const READOUT_PENDING_BIT: u8 = 0x01;

pub const WATCHDOG_BIT: u8 = 0x02;

pub const BOARD_ADDRESS: u8 = 0x3E;

/// The number of registers: a status, and three times three bytes of data.
pub const REGISTER_COUNT: usize = 10;

/// How often the board's watchdog is reset before the board is given up.
pub const MAX_WATCHDOG_RESETS: u8 = 2;

/// How many readouts have to fail in a row before the board is taken for dead.
pub const MAX_CONSECUTIVE_ERRORS: u32 = 10000;

/// Configuration for the board.
#[derive(Debug)]
pub struct ButtonExpanderBoardConfig {
    pub i2c_bus: String,
    pub polling_interval_millis: u64,
}

/// Errors that may occur when reading the expander.
#[derive(Debug)]
pub enum ButtonExpanderError {
    /// Occurs for a failed I2C bus operation.
    Bus(String),
}

/// The description of a bus operation that failed.
pub open spec fn bus_failure(err: Seq<char>) -> Seq<char> {
    "I2C operation failed: "@ + err
}

impl ButtonExpanderError {
    /// The description of what failed.
    pub open spec fn description(self) -> Seq<char> {
        match self {
            ButtonExpanderError::Bus(err) => err@,
        }
    }

    /// The error of a bus operation that failed.
    pub fn i2c_error(err: &str) -> (error: Self)
        ensures
            error.description() == bus_failure(err@),
    {
        ButtonExpanderError::Bus(concatenated("I2C operation failed: ", err))
    }

    /// The message for users.
    pub fn message(&self) -> (message: String)
        ensures
            message@ == "I2C error: "@ + quoted_text(self.description()),
    {
        match self {
            ButtonExpanderError::Bus(err) => {
                let text = quoted(err.as_str());
                concatenated("I2C error: ", text.as_str())
            },
        }
    }
}

/// The data of the board.
#[derive(Clone, Copy, Debug, PartialEq, Eq, Structural)]
pub enum ButtonExpanderData {
    /// No transmission had a right checksum.
    ChecksumError,
    /// The state of the pins.
    Pins { pin_a: u8, pin_b: u8 },
}

/// The state of the board.
#[derive(Clone, Copy, Debug, PartialEq, Eq, Structural)]
pub struct ButtonExpanderState {
    pub readout_pending: bool,
    pub watchdog_reset: bool,
    pub data: ButtonExpanderData,
}

/// Whether a pin is high. The registers hold the pins in this order, where pins 12 and 13 are
/// inverted:
///
/// ```text
/// first:   9  8  3  2  1 15 14 13
/// second: 12 11 10  7  6  5  4  0
/// ```
pub open spec fn pin_high(v1: u8, v2: u8, pin: int) -> bool {
    if pin == 0 {
        digit(v2 as int, 0)
    } else if pin == 1 {
        digit(v1 as int, 3)
    } else if pin == 2 {
        digit(v1 as int, 4)
    } else if pin == 3 {
        digit(v1 as int, 5)
    } else if pin == 4 {
        digit(v2 as int, 1)
    } else if pin == 5 {
        digit(v2 as int, 2)
    } else if pin == 6 {
        digit(v2 as int, 3)
    } else if pin == 7 {
        digit(v2 as int, 4)
    } else if pin == 8 {
        digit(v1 as int, 6)
    } else if pin == 9 {
        digit(v1 as int, 7)
    } else if pin == 10 {
        digit(v2 as int, 5)
    } else if pin == 11 {
        digit(v2 as int, 6)
    } else if pin == 12 {
        !digit(v2 as int, 7)
    } else if pin == 13 {
        !digit(v1 as int, 0)
    } else if pin == 14 {
        digit(v1 as int, 1)
    } else {
        digit(v1 as int, 2)
    }
}

/// A byte that was rotated to the left.
pub open spec fn rotated_left(v: u8, shift: u8) -> u8 {
    let end = place_value(8 - shift);
    (v as int % end * place_value(shift as int) + v as int / end) as u8
}

/// A byte that was rotated to the right.
pub open spec fn rotated_right(v: u8, shift: u8) -> u8 {
    let end = place_value(shift as int);
    (v as int % end * place_value(8 - shift) + v as int / end) as u8
}

/// The checksum of two bytes.
pub open spec fn checksum_of(b1: u8, b2: u8) -> u8 {
    rotated_left(((b1 + rotated_left(b2, 3)) % 256) as u8, 3)
}

fn rotate_left(v: u8, shift: u8) -> (rotated: u8)
    requires
        shift < 8,
    ensures
        rotated == rotated_left(v, shift),
{
    if shift == 0 {
        v
    } else {
        proof {
            lemma_left(v, shift);
        }
        (v << shift) | (v >> (8 - shift))
    }
}

proof fn lemma_left(v: u8, shift: u8)
    by (bit_vector)
    requires
        0 < shift < 8,
    ensures
        shift == 1 ==> (v << shift) | (v >> ((8 - shift) as u8)) == v % 128 * 2 + v / 128,
        shift == 2 ==> (v << shift) | (v >> ((8 - shift) as u8)) == v % 64 * 4 + v / 64,
        shift == 3 ==> (v << shift) | (v >> ((8 - shift) as u8)) == v % 32 * 8 + v / 32,
        shift == 4 ==> (v << shift) | (v >> ((8 - shift) as u8)) == v % 16 * 16 + v / 16,
        shift == 5 ==> (v << shift) | (v >> ((8 - shift) as u8)) == v % 8 * 32 + v / 8,
        shift == 6 ==> (v << shift) | (v >> ((8 - shift) as u8)) == v % 4 * 64 + v / 4,
        shift == 7 ==> (v << shift) | (v >> ((8 - shift) as u8)) == v % 2 * 128 + v / 2,
{
}

fn rotate_right(v: u8, shift: u8) -> (rotated: u8)
    requires
        shift < 8,
    ensures
        rotated == rotated_right(v, shift),
{
    if shift == 0 {
        v
    } else {
        proof {
            lemma_right(v, shift);
        }
        (v >> shift) | (v << (8 - shift))
    }
}

proof fn lemma_right(v: u8, shift: u8)
    by (bit_vector)
    requires
        0 < shift < 8,
    ensures
        shift == 1 ==> (v >> shift) | (v << ((8 - shift) as u8)) == v % 2 * 128 + v / 2,
        shift == 2 ==> (v >> shift) | (v << ((8 - shift) as u8)) == v % 4 * 64 + v / 4,
        shift == 3 ==> (v >> shift) | (v << ((8 - shift) as u8)) == v % 8 * 32 + v / 8,
        shift == 4 ==> (v >> shift) | (v << ((8 - shift) as u8)) == v % 16 * 16 + v / 16,
        shift == 5 ==> (v >> shift) | (v << ((8 - shift) as u8)) == v % 32 * 8 + v / 32,
        shift == 6 ==> (v >> shift) | (v << ((8 - shift) as u8)) == v % 64 * 4 + v / 64,
        shift == 7 ==> (v >> shift) | (v << ((8 - shift) as u8)) == v % 128 * 2 + v / 128,
{
}

/// Brings the pins into their order. A bit of the result is set if its pin is low, that is, if
/// its button is pressed. Pins 15 to 8 come first, then pins 7 to 0; each byte starts with its
/// lowest bit.
pub fn reorder_pin_positions(v1: u8, v2: u8) -> (pins: (u8, u8))
    ensures
        pins.0 == byte_of(|i: int| !pin_high(v1, v2, 15 - i)),
        pins.1 == byte_of(|i: int| !pin_high(v1, v2, 7 - i)),
        forall|i: int|
            0 <= i < 8 ==> digit(pins.0 as int, i) == !#[trigger] pin_high(v1, v2, 15 - i),
        forall|i: int|
            0 <= i < 8 ==> digit(pins.1 as int, i) == !#[trigger] pin_high(v1, v2, 7 - i),
{
    // Pins 12 and 13 are inverted.
    let w1: u8 = v1 ^ 0b0000_0001;
    let w2: u8 = v2 ^ 0b1000_0000;
    let pin_a: u8 = ((w2 & 0b0000_0001) << 7u8) | ((w1 & 0b0000_1000) << 3u8) | ((w1 & 0b0001_0000)
        << 1u8) | ((w1 & 0b0010_0000) >> 1u8) | ((w2 & 0b0000_0010) << 2u8) | (w2 & 0b0000_0100) | ((
    w2 & 0b0000_1000) >> 2u8) | ((w2 & 0b0001_0000) >> 4u8);
    let pin_b: u8 = ((w1 & 0b0100_0000) << 1u8) | ((w1 & 0b1000_0000) >> 1u8) | (w2 & 0b0010_0000)
        | ((w2 & 0b0100_0000) >> 2u8) | ((w2 & 0b1000_0000) >> 4u8) | ((w1 & 0b0000_0001) << 2u8) | (
    w1 & 0b0000_0010) | ((w1 & 0b0000_0100) >> 2u8);
    // Everything is flipped, and the bytes are in the wrong order.
    let a: u8 = !pin_b;
    let b: u8 = !pin_a;
    proof {
        lemma_low_pins(v1, v2, w1, w2, b);
        lemma_high_pins(v1, v2, w1, w2, a);
        lemma_byte_masks(v1);
        lemma_byte_masks(v2);
        lemma_byte_masks(a);
        lemma_byte_masks(b);
        assert forall|i: int| 0 <= i < 8 implies digit(a as int, i) == !#[trigger] pin_high(
            v1,
            v2,
            15 - i,
        ) by {
            lemma_bit_positions(i);
        }
        assert forall|i: int| 0 <= i < 8 implies digit(b as int, i) == !#[trigger] pin_high(
            v1,
            v2,
            7 - i,
        ) by {
            lemma_bit_positions(i);
        }
        lemma_byte_of(a, |i: int| !pin_high(v1, v2, 15 - i));
        lemma_byte_of(b, |i: int| !pin_high(v1, v2, 7 - i));
    }
    (a, b)
}

proof fn lemma_bit_positions(i: int)
    requires
        0 <= i < 8,
    ensures
        i == 0 || i == 1 || i == 2 || i == 3 || i == 4 || i == 5 || i == 6 || i == 7,
{
}

proof fn lemma_low_pins(v1: u8, v2: u8, w1: u8, w2: u8, b: u8)
    by (bit_vector)
    requires
        w1 == v1 ^ 0b0000_0001u8,
        w2 == v2 ^ 0b1000_0000u8,
        b == !(((w2 & 0b0000_0001u8) << 7u8) | ((w1 & 0b0000_1000u8) << 3u8) | ((w1
            & 0b0001_0000u8) << 1u8) | ((w1 & 0b0010_0000u8) >> 1u8) | ((w2 & 0b0000_0010u8) << 2u8)
            | (w2 & 0b0000_0100u8) | ((w2 & 0b0000_1000u8) >> 2u8) | ((w2 & 0b0001_0000u8)
            >> 4u8)),
    ensures
        (b & 0b0000_0001u8 != 0) == (v2 & 0b0001_0000u8 == 0),
        (b & 0b0000_0010u8 != 0) == (v2 & 0b0000_1000u8 == 0),
        (b & 0b0000_0100u8 != 0) == (v2 & 0b0000_0100u8 == 0),
        (b & 0b0000_1000u8 != 0) == (v2 & 0b0000_0010u8 == 0),
        (b & 0b0001_0000u8 != 0) == (v1 & 0b0010_0000u8 == 0),
        (b & 0b0010_0000u8 != 0) == (v1 & 0b0001_0000u8 == 0),
        (b & 0b0100_0000u8 != 0) == (v1 & 0b0000_1000u8 == 0),
        (b & 0b1000_0000u8 != 0) == (v2 & 0b0000_0001u8 == 0),
{
}

proof fn lemma_high_pins(v1: u8, v2: u8, w1: u8, w2: u8, a: u8)
    by (bit_vector)
    requires
        w1 == v1 ^ 0b0000_0001u8,
        w2 == v2 ^ 0b1000_0000u8,
        a == !(((w1 & 0b0100_0000u8) << 1u8) | ((w1 & 0b1000_0000u8) >> 1u8) | (w2
            & 0b0010_0000u8) | ((w2 & 0b0100_0000u8) >> 2u8) | ((w2 & 0b1000_0000u8) >> 4u8) | ((w1
            & 0b0000_0001u8) << 2u8) | (w1 & 0b0000_0010u8) | ((w1 & 0b0000_0100u8) >> 2u8)),
    ensures
        (a & 0b0000_0001u8 != 0) == (v1 & 0b0000_0100u8 == 0),
        (a & 0b0000_0010u8 != 0) == (v1 & 0b0000_0010u8 == 0),
        (a & 0b0000_0100u8 != 0) == (v1 & 0b0000_0001u8 != 0),
        (a & 0b0000_1000u8 != 0) == (v2 & 0b1000_0000u8 != 0),
        (a & 0b0001_0000u8 != 0) == (v2 & 0b0100_0000u8 == 0),
        (a & 0b0010_0000u8 != 0) == (v2 & 0b0010_0000u8 == 0),
        (a & 0b0100_0000u8 != 0) == (v1 & 0b1000_0000u8 == 0),
        (a & 0b1000_0000u8 != 0) == (v1 & 0b0100_0000u8 == 0),
{
}

/// Computes the checksum of two bytes.
pub fn compute_checksum(b1: u8, b2: u8) -> (checksum: u8)
    ensures
        checksum == checksum_of(b1, b2),
{
    rotate_left(b1.wrapping_add(rotate_left(b2, 3)), 3)
}

/// The two data bytes of a transmission, if their checksum is right.
pub open spec fn transmission_data(transmission: Seq<u8>, shift: u8) -> Option<(u8, u8)> {
    let b1 = rotated_right(transmission[0], shift);
    let b2 = rotated_right(transmission[1], shift);
    if rotated_right(transmission[2], shift) == checksum_of(b1, b2) {
        Some((b1, b2))
    } else {
        None
    }
}

/// The data bytes of the first good transmission, if there is one.
pub open spec fn transmitted(values: Seq<u8>) -> Option<(u8, u8)> {
    let first = transmission_data(values.subrange(0, 3), 0);
    let second = transmission_data(values.subrange(3, 6), 3);
    let third = transmission_data(values.subrange(6, 9), 6);
    if first is Some {
        first
    } else if second is Some {
        second
    } else {
        third
    }
}

/// Whether the data says of each button whether it is pressed.
pub open spec fn data_shows(data: ButtonExpanderData, v1: u8, v2: u8) -> bool {
    &&& data matches ButtonExpanderData::Pins { pin_a, pin_b }
    &&& pin_a == byte_of(|i: int| !pin_high(v1, v2, 15 - i))
    &&& pin_b == byte_of(|i: int| !pin_high(v1, v2, 7 - i))
    &&& forall|i: int|
        0 <= i < 8 ==> digit(pin_a as int, i) == !#[trigger] pin_high(v1, v2, 15 - i)
    &&& forall|i: int|
        0 <= i < 8 ==> digit(pin_b as int, i) == !#[trigger] pin_high(v1, v2, 7 - i)
}

/// The data is that of the first good transmission.
pub open spec fn decodes(data: ButtonExpanderData, values: Seq<u8>) -> bool {
    match transmitted(values) {
        Some((v1, v2)) => data_shows(data, v1, v2),
        None => data == ButtonExpanderData::ChecksumError,
    }
}

fn decode_single_transmission(transmission: &[u8], shift: u8) -> (result: Option<(u8, u8)>)
    requires
        transmission@.len() == 3,
        shift < 8,
    ensures
        result == transmission_data(transmission@, shift),
{
    let b1: u8 = rotate_right(transmission[0], shift);
    let b2: u8 = rotate_right(transmission[1], shift);
    let cs: u8 = rotate_right(transmission[2], shift);
    if cs == compute_checksum(b1, b2) {
        Some((b1, b2))
    } else {
        None
    }
}

/// Decodes the three transmissions, and takes the first good one.
pub fn try_decode_transmissions(values: &[u8]) -> (data: ButtonExpanderData)
    requires
        values@.len() == 9,
    ensures
        decodes(data, values@),
{
    let first = decode_single_transmission(&values[0..3], 0);
    let second = decode_single_transmission(&values[3..6], 3);
    let third = decode_single_transmission(&values[6..9], 6);
    let bytes: Option<(u8, u8)> = if first.is_some() {
        first
    } else if second.is_some() {
        second
    } else {
        third
    };
    match bytes {
        Some((v1, v2)) => {
            let (pin_a, pin_b) = reorder_pin_positions(v1, v2);
            ButtonExpanderData::Pins { pin_a, pin_b }
        },
        None => ButtonExpanderData::ChecksumError,
    }
}

/// The state is what the registers say.
pub open spec fn shows_state(state: ButtonExpanderState, registers: Seq<u8>) -> bool {
    &&& state.readout_pending == digit(registers[0] as int, 0)
    &&& state.watchdog_reset == watchdog_was_reset(registers)
    &&& decodes(state.data, registers.subrange(1, 10))
}

/// The expander on a bus: what to ask it, and what its replies mean.
#[derive(Clone, Copy, Debug)]
pub struct ButtonExpander;

impl ButtonExpander {
    /// Clears the watchdog reset.
    pub fn reset_watchdog() -> (request: I2cRequest)
        ensures
            request@ == (RequestView::Write {
                address: BOARD_ADDRESS,
                bytes: seq![0u8, WATCHDOG_BIT],
            }),
    {
        write_register(BOARD_ADDRESS, 0x00, WATCHDOG_BIT)
    }

    /// Asks for the registers.
    pub fn state_request() -> (request: I2cRequest)
        ensures
            request@ == (RequestView::WriteRead {
                address: BOARD_ADDRESS,
                bytes: seq![0u8],
                len: REGISTER_COUNT as int,
            }),
    {
        read_from_register(BOARD_ADDRESS, 0x00, REGISTER_COUNT)
    }

    /// Decodes the registers.
    pub fn read_expander_state(reply: &Result<Vec<u8>, String>) -> (result: Result<
        ButtonExpanderState,
        ButtonExpanderError,
    >)
        requires
            reply matches Ok(registers) ==> registers@.len() == REGISTER_COUNT,
        ensures
            match (*reply, result) {
                (Ok(registers), Ok(state)) => shows_state(state, registers@),
                (Err(err), Err(error)) => error.description() == bus_failure(err@),
                _ => false,
            },
    {
        match reply {
            Err(err) => Err(ButtonExpanderError::i2c_error(err.as_str())),
            Ok(registers) => {
                let bytes: &[u8] = registers.as_slice();
                proof {
                    lemma_byte_masks(bytes@[0]);
                }
                Ok(
                    ButtonExpanderState {
                        readout_pending: (bytes[0] & READOUT_PENDING_BIT) != 0,
                        watchdog_reset: (bytes[0] & WATCHDOG_BIT) == 0,
                        data: try_decode_transmissions(&bytes[1..10]),
                    },
                )
            },
        }
    }
}

/// The start of the board: it is read, and its watchdog is cleared if that is needed.
#[derive(Clone, Copy, Debug, PartialEq, Eq, Structural)]
pub enum ButtonExpanderSetup {
    Read { resets: u8 },
    Reset { resets: u8 },
}

/// How the start of the board goes on.
#[derive(Debug)]
pub enum SetupStep {
    /// There is more to do.
    Next(ButtonExpanderSetup),
    /// The board is ready, or cannot be used.
    Done(Result<(), Failure>),
}

/// A step as contracts see it.
pub enum SetupStepView {
    Next(ButtonExpanderSetup),
    Done(Result<(), Seq<Seq<char>>>),
}

impl View for SetupStep {
    type V = SetupStepView;

    open spec fn view(&self) -> SetupStepView {
        match self {
            SetupStep::Next(setup) => SetupStepView::Next(*setup),
            SetupStep::Done(result) => SetupStepView::Done(traced(*result)),
        }
    }
}

/// The message of a bus operation that failed.
pub open spec fn failure_message(err: Seq<char>) -> Seq<char> {
    "I2C error: "@ + quoted_text(bus_failure(err))
}

/// Asks for the registers, as contracts see it.
pub open spec fn read_request() -> RequestView {
    RequestView::WriteRead {
        address: BOARD_ADDRESS,
        bytes: seq![0u8],
        len: REGISTER_COUNT as int,
    }
}

/// Clears the watchdog reset, as contracts see it.
pub open spec fn reset_request() -> RequestView {
    RequestView::Write { address: BOARD_ADDRESS, bytes: seq![0u8, WATCHDOG_BIT] }
}

/// Whether the registers say that the watchdog reset the board.
pub open spec fn watchdog_was_reset(registers: Seq<u8>) -> bool {
    !digit(registers[0] as int, 1)
}

impl ButtonExpanderSetup {
    /// The watchdog was not reset too often.
    pub open spec fn wf(self) -> bool {
        match self {
            ButtonExpanderSetup::Read { resets } => resets <= MAX_WATCHDOG_RESETS,
            ButtonExpanderSetup::Reset { resets } => resets <= MAX_WATCHDOG_RESETS,
        }
    }

    /// The transaction that is due.
    pub open spec fn needs(self) -> RequestView {
        match self {
            ButtonExpanderSetup::Read { .. } => read_request(),
            ButtonExpanderSetup::Reset { .. } => reset_request(),
        }
    }

    /// The step after the reply to the transaction that was due.
    pub open spec fn after(self, reply: Result<Seq<u8>, Seq<char>>) -> SetupStepView {
        match (self, reply) {
            (ButtonExpanderSetup::Read { .. }, Err(err)) => SetupStepView::Done(
                Err(within("unable to read expander state"@, failed(failure_message(err)))),
            ),
            (ButtonExpanderSetup::Reset { .. }, Err(err)) => SetupStepView::Done(
                Err(failed(failure_message(err))),
            ),
            (ButtonExpanderSetup::Read { resets }, Ok(registers)) => if !watchdog_was_reset(
                registers,
            ) {
                SetupStepView::Done(Ok(()))
            } else if resets >= MAX_WATCHDOG_RESETS {
                SetupStepView::Done(Err(failed("board has sticky watchdog reset?"@)))
            } else {
                SetupStepView::Next(ButtonExpanderSetup::Reset { resets: (resets + 1) as u8 })
            },
            (ButtonExpanderSetup::Reset { resets }, Ok(_)) => SetupStepView::Next(
                ButtonExpanderSetup::Read { resets },
            ),
        }
    }

    /// How many transactions there can still be, at most.
    pub open spec fn steps_left(self) -> int {
        match self {
            ButtonExpanderSetup::Read { resets } => 5 - 2 * resets,
            ButtonExpanderSetup::Reset { resets } => 6 - 2 * resets,
        }
    }

    /// Starts with a readout.
    pub fn new() -> (setup: Self)
        ensures
            setup == (ButtonExpanderSetup::Read { resets: 0 }),
            setup.wf(),
    {
        ButtonExpanderSetup::Read { resets: 0 }
    }

    /// The transaction that is due.
    pub fn request(self) -> (request: I2cRequest)
        ensures
            request@ == self.needs(),
    {
        match self {
            ButtonExpanderSetup::Read { .. } => ButtonExpander::state_request(),
            ButtonExpanderSetup::Reset { .. } => ButtonExpander::reset_watchdog(),
        }
    }

    /// Takes the reply to the transaction that was due.
    pub fn replied(self, reply: Result<Vec<u8>, String>) -> (step: SetupStep)
        requires
            self.wf(),
            self is Read ==> (reply matches Ok(registers) ==> registers@.len() == REGISTER_COUNT),
        ensures
            step@ == self.after(reply_view(reply)),
            step@ matches SetupStepView::Next(setup) ==> setup.wf(),
    {
        match self {
            ButtonExpanderSetup::Read { resets } => {
                match ButtonExpander::read_expander_state(&reply) {
                    Err(error) => SetupStep::Done(
                        Err(Failure::new(error.message()).within("unable to read expander state")),
                    ),
                    Ok(state) => if !state.watchdog_reset {
                        SetupStep::Done(Ok(()))
                    } else if resets >= MAX_WATCHDOG_RESETS {
                        SetupStep::Done(
                            Err(Failure::new("board has sticky watchdog reset?".to_owned())),
                        )
                    } else {
                        SetupStep::Next(ButtonExpanderSetup::Reset { resets: resets + 1 })
                    },
                }
            },
            ButtonExpanderSetup::Reset { resets } => match reply {
                Err(err) => SetupStep::Done(
                    Err(Failure::new(ButtonExpanderError::i2c_error(err.as_str()).message())),
                ),
                Ok(_) => SetupStep::Next(ButtonExpanderSetup::Read { resets }),
            },
        }
    }
}

/// Where a round of reading the board stands.
#[derive(Clone, Copy, Debug, PartialEq, Eq, Structural)]
pub enum RunPhase {
    /// The board is to be read.
    Read,
    /// The watchdog reset is to be cleared.
    ResetWatchdog,
    /// The board is to be read, to see whether the watchdog reset is gone.
    ReadAgain,
}

/// The work on the board, round by round. A round is over when the next thing to do is to read
/// the board.
#[derive(Clone, Copy, Debug, PartialEq, Eq, Structural)]
pub struct ButtonExpanderRun {
    pub consecutive_i2c_errors: u32,
    pub phase: RunPhase,
}

/// What a reply of the board led to.
#[derive(Debug)]
pub enum BoardEvent {
    /// Nothing to speak of.
    Quiet,
    /// The watchdog reset the board.
    WatchdogReset,
    /// No transmission was good. The ports keep their values.
    ChecksumError,
    /// The state of all buttons, one bit each.
    Pins(u16),
    /// The board could not be read. It is dead if that happened too often in a row.
    BusError { description: String, dead: bool },
}

/// Whether a button is pressed, which pulls its pin low.
pub open spec fn pressed(v1: u8, v2: u8, button: int) -> bool {
    if button < 8 {
        !pin_high(v1, v2, 7 - button)
    } else {
        !pin_high(v1, v2, 23 - button)
    }
}

/// Whether `vals` has one bit per button, set if the button is pressed.
pub open spec fn shows_buttons(vals: u16, v1: u8, v2: u8) -> bool {
    &&& vals == word_of(|i: int| pressed(v1, v2, i))
    &&& forall|i: int| 0 <= i < 16 ==> #[trigger] pin_set(vals, i) == pressed(v1, v2, i)
}

impl ButtonExpanderRun {
    /// The transaction that is due.
    pub open spec fn needs(self) -> RequestView {
        match self.phase {
            RunPhase::ResetWatchdog => reset_request(),
            _ => read_request(),
        }
    }

    /// The number of failed readouts after one more. It stops where the board is taken for dead.
    pub open spec fn one_more_error(self) -> u32 {
        if self.consecutive_i2c_errors < MAX_CONSECUTIVE_ERRORS {
            (self.consecutive_i2c_errors + 1) as u32
        } else {
            self.consecutive_i2c_errors
        }
    }

    /// The work after the reply to the transaction that was due.
    pub open spec fn after(self, reply: Result<Seq<u8>, Seq<char>>) -> ButtonExpanderRun {
        match (self.phase, reply) {
            (RunPhase::Read, Err(_)) => ButtonExpanderRun {
                consecutive_i2c_errors: self.one_more_error(),
                ..self
            },
            (RunPhase::Read, Ok(registers)) => ButtonExpanderRun {
                consecutive_i2c_errors: 0,
                phase: if watchdog_was_reset(registers) {
                    RunPhase::ResetWatchdog
                } else {
                    RunPhase::Read
                },
            },
            (RunPhase::ResetWatchdog, Err(_)) => self,
            (RunPhase::ResetWatchdog, Ok(_)) => ButtonExpanderRun {
                phase: RunPhase::ReadAgain,
                ..self
            },
            (RunPhase::ReadAgain, Err(_)) => ButtonExpanderRun {
                phase: RunPhase::ResetWatchdog,
                ..self
            },
            (RunPhase::ReadAgain, Ok(registers)) => ButtonExpanderRun {
                phase: if watchdog_was_reset(registers) {
                    RunPhase::ResetWatchdog
                } else {
                    RunPhase::Read
                },
                ..self
            },
        }
    }

    /// Whether the reply to the transaction that was due led to an event.
    pub open spec fn leads_to(self, reply: Result<Seq<u8>, Seq<char>>, event: BoardEvent) -> bool {
        match (self.phase, reply) {
            (RunPhase::Read, Err(err)) => event matches BoardEvent::BusError { description, dead }
                && description@ == bus_failure(err) && dead == (self.one_more_error()
                >= MAX_CONSECUTIVE_ERRORS),
            (RunPhase::Read, Ok(registers)) => if watchdog_was_reset(registers) {
                event is WatchdogReset
            } else {
                match transmitted(registers.subrange(1, 10)) {
                    None => event is ChecksumError,
                    Some((v1, v2)) => event matches BoardEvent::Pins(vals) && shows_buttons(
                        vals,
                        v1,
                        v2,
                    ),
                }
            },
            _ => event is Quiet,
        }
    }

    /// Starts with a readout.
    pub fn new() -> (run: Self)
        ensures
            run == (ButtonExpanderRun { consecutive_i2c_errors: 0, phase: RunPhase::Read }),
    {
        ButtonExpanderRun { consecutive_i2c_errors: 0, phase: RunPhase::Read }
    }

    /// The transaction that is due.
    pub fn request(&self) -> (request: I2cRequest)
        ensures
            request@ == self.needs(),
    {
        match self.phase {
            RunPhase::ResetWatchdog => ButtonExpander::reset_watchdog(),
            _ => ButtonExpander::state_request(),
        }
    }

    /// Takes the reply to the transaction that was due.
    pub fn replied(&mut self, reply: Result<Vec<u8>, String>) -> (event: BoardEvent)
        requires
            !(old(self).phase is ResetWatchdog) ==> (reply matches Ok(registers) ==> registers@.len()
                == REGISTER_COUNT),
        ensures
            *final(self) == old(self).after(reply_view(reply)),
            old(self).leads_to(reply_view(reply), event),
    {
        match self.phase {
            RunPhase::Read => match ButtonExpander::read_expander_state(&reply) {
                Err(error) => {
                    if self.consecutive_i2c_errors < MAX_CONSECUTIVE_ERRORS {
                        self.consecutive_i2c_errors = self.consecutive_i2c_errors + 1;
                    }
                    let ButtonExpanderError::Bus(description) = error;
                    BoardEvent::BusError {
                        description,
                        dead: self.consecutive_i2c_errors >= MAX_CONSECUTIVE_ERRORS,
                    }
                },
                Ok(state) => {
                    self.consecutive_i2c_errors = 0;
                    if state.watchdog_reset {
                        self.phase = RunPhase::ResetWatchdog;
                        return BoardEvent::WatchdogReset;
                    }
                    match state.data {
                        ButtonExpanderData::Pins { pin_a, pin_b } => {
                            let vals: u16 = join_pins(pin_a, pin_b);
                            proof {
                                lemma_joined_buttons(reply_view(reply)->Ok_0, state, vals);
                            }
                            BoardEvent::Pins(vals)
                        },
                        ButtonExpanderData::ChecksumError => BoardEvent::ChecksumError,
                    }
                },
            },
            RunPhase::ResetWatchdog => {
                if reply.is_ok() {
                    self.phase = RunPhase::ReadAgain;
                }
                BoardEvent::Quiet
            },
            RunPhase::ReadAgain => {
                let gone: bool = match ButtonExpander::read_expander_state(&reply) {
                    Ok(state) => !state.watchdog_reset,
                    Err(_) => false,
                };
                self.phase = if gone { RunPhase::Read } else { RunPhase::ResetWatchdog };
                BoardEvent::Quiet
            },
        }
    }
}

proof fn lemma_joined_buttons(registers: Seq<u8>, state: ButtonExpanderState, vals: u16)
    requires
        shows_state(state, registers),
        state.data matches ButtonExpanderData::Pins { pin_a, pin_b } && (forall|i: int|
            0 <= i < 8 ==> #[trigger] pin_set(vals, i) == digit(pin_b as int, i)) && (forall|i: int|
            8 <= i < 16 ==> #[trigger] pin_set(vals, i) == digit(pin_a as int, i - 8)),
    ensures
        transmitted(registers.subrange(1, 10)) matches Some((v1, v2)) && shows_buttons(
            vals,
            v1,
            v2,
        ),
{
    let (v1, v2) = transmitted(registers.subrange(1, 10))->Some_0;
    assert(data_shows(state.data, v1, v2));
    assert forall|i: int| 0 <= i < 16 implies #[trigger] pin_set(vals, i) == pressed(v1, v2, i) by {
        if i < 8 {
            assert(!pin_high(v1, v2, 7 - i) == pin_set(vals, i));
        } else {
            assert(!pin_high(v1, v2, 15 - (i - 8)) == pin_set(vals, i));
        }
    }
    let digits = |i: int| pressed(v1, v2, i);
    assert forall|i: int| 0 <= i < 16 implies #[trigger] digits(i) == digit(vals as int, i) by {
        assert(pin_set(vals, i) == pressed(v1, v2, i));
    }
    lemma_word_of(vals, digits);
}

/// The board as a device.
#[derive(Debug)]
pub struct ButtonExpanderBoard {
    pub core: DeviceReadCore,
    pub down: [u64; 16],
    pub down_secs: [u64; 16],
}

impl ButtonExpanderBoard {
    /// The device has all its ports.
    pub open spec fn wf(&self) -> bool {
        self.core@.len() == 16
    }

    /// Checks a configuration.
    pub fn check_config(config: &ButtonExpanderBoardConfig) -> (result: Result<(), String>)
        ensures
            outcome(result) == (if config.polling_interval_millis != 0 {
                Ok(())
            } else {
                Err("polling interval must be greater than zero"@)
            }),
    {
        if config.polling_interval_millis != 0 {
            Ok(())
        } else {
            Err("polling interval must be greater than zero".to_owned())
        }
    }

    /// Creates the device, after the board was started.
    pub fn new(alias: String, now: u64) -> (device: Self)
        ensures
            device.wf(),
            device.core@ == Seq::new(16, |i: int| PortView::fresh(InputValueType::Binary)),
            device.core.alias_text() == alias@,
            device.down@ == Seq::new(16, |i: int| now),
            device.down_secs@ == Seq::new(16, |i: int| 0u64),
    {
        let device = ButtonExpanderBoard {
            core: DeviceReadCore::uniform(alias, InputValueType::Binary, 16),
            down: [now; 16],
            down_secs: [0; 16],
        };
        assert(device.down@ =~= Seq::new(16, |i: int| now));
        assert(device.down_secs@ =~= Seq::new(16, |i: int| 0u64));
        device
    }

    /// Takes over what a readout led to. A readout with bad checksums, and one that could not be
    /// done, leave the ports alone, such that no press of a button gets lost. The error is put on
    /// all ports only once the board is taken for dead.
    pub fn handle_event(&mut self, event: &BoardEvent, mono_ts: u64, real_ts: Timestamp)
        requires
            old(self).wf(),
        ensures
            final(self).wf(),
            final(self).core.alias_text() == old(self).core.alias_text(),
            match *event {
                BoardEvent::Pins(vals) => {
                    &&& final(self).core@ == Seq::new(
                        16,
                        |i: int|
                            button_port(
                                old(self).core@[i],
                                PressView {
                                    down: old(self).down@[i],
                                    down_secs: old(self).down_secs@[i],
                                },
                                pin_set(vals, i),
                                mono_ts,
                                real_ts,
                            ),
                    )
                    &&& forall|i: int|
                        0 <= i < 16 ==> #[trigger] button_press(
                            old(self).core@[i],
                            PressView {
                                down: old(self).down@[i],
                                down_secs: old(self).down_secs@[i],
                            },
                            pin_set(vals, i),
                            mono_ts,
                        ) == (PressView {
                            down: final(self).down@[i],
                            down_secs: final(self).down_secs@[i],
                        })
                },
                BoardEvent::BusError { description, dead } => {
                    &&& final(self).core@ == (if dead {
                        all_updated(
                            old(self).core@,
                            real_ts,
                            Err(quoted_text(description@)),
                            true,
                            false,
                        )
                    } else {
                        old(self).core@
                    })
                    &&& final(self).down == old(self).down
                    &&& final(self).down_secs == old(self).down_secs
                },
                _ => *final(self) == *old(self),
            },
    {
        match event {
            BoardEvent::Pins(vals) => {
                update_buttons(
                    &mut self.core,
                    mono_ts,
                    real_ts,
                    *vals,
                    &mut self.down,
                    &mut self.down_secs,
                );
            },
            BoardEvent::BusError { description, dead } => {
                if *dead {
                    let text = quoted(description.as_str());
                    self.core.set_error_on_all_ports(real_ts, text.as_str());
                }
            },
            _ => {},
        }
    }

    /// The generic alias of a port.
    pub fn port_alias(port: u8) -> (result: Result<String, String>)
        ensures
            match result {
                Ok(alias) => port < 16 && alias@ == "port-"@ + decimal(port as nat),
                Err(message) => port >= 16 && message@ == "button expander has 16 ports only"@,
            },
    {
        if port < 16 {
            Ok(numbered("port-", port as u64))
        } else {
            Err("button expander has 16 ports only".to_owned())
        }
    }

    /// Starts to listen to a port.
    pub fn get_input_port(&mut self, port: u8) -> (result: Result<InputValueType, String>)
        requires
            old(self).wf(),
            port < 16 ==> old(self).core@[port as int].events is None,
        ensures
            final(self).wf(),
            final(self).down == old(self).down,
            final(self).down_secs == old(self).down_secs,
            final(self).core.alias_text() == old(self).core.alias_text(),
            port < 16 ==> {
                &&& result == Ok::<InputValueType, String>(old(self).core@[port as int].value_type)
                &&& final(self).core@ == old(self).core@.update(
                    port as int,
                    old(self).core@[port as int].listened_to(),
                )
            },
            port >= 16 ==> {
                &&& outcome(result) == Err::<InputValueType, Seq<char>>(
                    "button expander has 16 ports only"@,
                )
                &&& final(self).core == old(self).core
            },
    {
        if port >= 16 {
            return Err("button expander has 16 ports only".to_owned());
        }
        self.core.get_input_port(port)
    }
}

/// Every transaction of the start brings its end nearer; there are five at most.
pub proof fn law_setup_ends(setup: ButtonExpanderSetup, reply: Result<Seq<u8>, Seq<char>>)
    requires
        setup.wf(),
    ensures
        (ButtonExpanderSetup::Read { resets: 0 }).steps_left() == 5,
        setup.steps_left() >= 1,
        setup.after(reply) matches SetupStepView::Next(next) ==> next.wf() && next.steps_left()
            < setup.steps_left(),
{
}

/// A byte that is rotated to the left, and then to the right by as much, is as it was.
pub proof fn law_rotation_is_undone(v: u8, shift: u8)
    requires
        shift < 8,
    ensures
        rotated_right(rotated_left(v, shift), shift) == v,
{
    if shift == 0 {
        lemma_rotation(v as int, 1, 256);
    } else if shift == 1 {
        lemma_rotation(v as int, 2, 128);
    } else if shift == 2 {
        lemma_rotation(v as int, 4, 64);
    } else if shift == 3 {
        lemma_rotation(v as int, 8, 32);
    } else if shift == 4 {
        lemma_rotation(v as int, 16, 16);
    } else if shift == 5 {
        lemma_rotation(v as int, 32, 8);
    } else if shift == 6 {
        lemma_rotation(v as int, 64, 4);
    } else {
        lemma_rotation(v as int, 128, 2);
    }
}

proof fn lemma_rotation(v: int, places: int, end: int)
    by (nonlinear_arith)
    requires
        0 <= v < 256,
        places > 0,
        end > 0,
        places * end == 256,
    ensures
        0 <= v % end * places + v / end <= 255,
        (v % end * places + v / end) % places * end + (v % end * places + v / end) / places == v,
{
    let high = v / end;
    let low = v % end;
    assert(v == end * high + low && 0 <= low < end);
    assert(0 <= high < places);
    let rotated = low * places + high;
    assert(rotated <= (end - 1) * places + places - 1);
    assert(rotated % places == high && rotated / places == low) by {
        vstd::arithmetic::div_mod::lemma_fundamental_div_mod_converse(
            rotated,
            places,
            low,
            high,
        );
    }
    assert(high * end + low == v);
}

/// What the board sends for two data bytes.
pub open spec fn sent(b1: u8, b2: u8) -> Seq<u8> {
    let cs = checksum_of(b1, b2);
    seq![
        b1,
        b2,
        cs,
        rotated_left(b1, 3),
        rotated_left(b2, 3),
        rotated_left(cs, 3),
        rotated_left(b1, 6),
        rotated_left(b2, 6),
        rotated_left(cs, 6),
    ]
}

proof fn lemma_read_as_sent(b1: u8, b2: u8, shift: u8, part: Seq<u8>)
    requires
        shift < 8,
        part.len() == 3,
        part[0] == rotated_left(b1, shift),
        part[1] == rotated_left(b2, shift),
        part[2] == rotated_left(checksum_of(b1, b2), shift),
    ensures
        transmission_data(part, shift) == Some((b1, b2)),
{
    law_rotation_is_undone(b1, shift);
    law_rotation_is_undone(b2, shift);
    law_rotation_is_undone(checksum_of(b1, b2), shift);
}

proof fn lemma_not_rotated(v: u8)
    ensures
        rotated_left(v, 0) == v,
{
    assert(v as int % 256 == v);
    assert(v as int / 256 == 0);
}

/// One good transmission is enough: whatever becomes of the two others, the data is read as it
/// was sent, as long as the checksums of the bad ones tell that they are bad.
#[verifier::spinoff_prover]
#[verifier::rlimit(40)]
pub proof fn law_one_good_transmission_is_enough(b1: u8, b2: u8, received: Seq<u8>, good: int)
    requires
        0 <= good < 3,
        received.len() == 9,
        received.subrange(3 * good, 3 * good + 3) == sent(b1, b2).subrange(
            3 * good,
            3 * good + 3,
        ),
        forall|other: int|
            0 <= other < good ==> transmission_data(
                #[trigger] received.subrange(3 * other, 3 * other + 3),
                (3 * other) as u8,
            ) is None,
    ensures
        transmitted(received) == Some((b1, b2)),
{
    let s = sent(b1, b2);
    let part = received.subrange(3 * good, 3 * good + 3);
    assert(part[0] == s[3 * good]);
    assert(part[1] == s[3 * good + 1]);
    assert(part[2] == s[3 * good + 2]);
    if good == 0 {
        lemma_not_rotated(b1);
        lemma_not_rotated(b2);
        lemma_not_rotated(checksum_of(b1, b2));
    }
    lemma_read_as_sent(b1, b2, (3 * good) as u8, part);
    if good >= 1 {
        let other: int = 0;
        assert(transmission_data(
            received.subrange(3 * other, 3 * other + 3),
            (3 * other) as u8,
        ) is None);
    }
    if good >= 2 {
        let other: int = 1;
        assert(transmission_data(
            received.subrange(3 * other, 3 * other + 3),
            (3 * other) as u8,
        ) is None);
    }
}

proof fn lemma_moved_bit(v: u8, r: u8, shift: u8, i: u8, j: u8)
    by (bit_vector)
    requires
        0 < shift < 8,
        i < 8,
        j == (i + shift) % 8,
        r == (v << shift) | (v >> ((8 - shift) as u8)),
    ensures
        (r & (1u8 << j) != 0) == (v & (1u8 << i) != 0),
{
}

/// A rotation to the left moves every bit up, and those that would fall out come in from below.
pub proof fn law_rotation_moves_bits(v: u8, shift: u8, i: u8)
    requires
        0 < shift < 8,
        i < 8,
    ensures
        ({
            let moved: u8 = if i + shift < 8 {
                (i + shift) as u8
            } else {
                (i + shift - 8) as u8
            };
            rotated_left(v, shift) & (1u8 << moved) != 0 <==> v & (1u8 << i) != 0
        }),
{
    lemma_left(v, shift);
    let r = (v << shift) | (v >> ((8 - shift) as u8));
    assert(rotated_left(v, shift) == r);
    let j: u8 = if i + shift < 8 {
        (i + shift) as u8
    } else {
        (i + shift - 8) as u8
    };
    lemma_moved_bit(v, r, shift, i, j);
}

proof fn lemma_rotated_by_three(v: u8)
    ensures
        rotated_left(v, 3) == v % 32 * 8 + v / 32,
{
    assert(v % 32 * 8 + v / 32 <= 255);
}

/// The second byte is rotated by three bits and added to the first one, and the sum is rotated by
/// three bits again.
pub proof fn law_checksum_of_two_bytes(b1: u8, b2: u8)
    ensures
        ({
            let sum = (b1 + (b2 % 32 * 8 + b2 / 32)) % 256;
            checksum_of(b1, b2) == sum % 32 * 8 + sum / 32
        }),
{
    lemma_rotated_by_three(b2);
    lemma_rotated_by_three(((b1 + rotated_left(b2, 3)) % 256) as u8);
}

proof fn lemma_same_sum(a: u8, b: u8, c: u8, d: u8)
    requires
        (a + c) % 256 == (b + d) % 256,
    ensures
        c == d ==> a == b,
        a == b ==> c == d,
{
}

proof fn lemma_same_checksum(a1: u8, a2: u8, b1: u8, b2: u8)
    requires
        checksum_of(a1, a2) == checksum_of(b1, b2),
    ensures
        (a1 + rotated_left(a2, 3)) % 256 == (b1 + rotated_left(b2, 3)) % 256,
{
    let sum_a = ((a1 + rotated_left(a2, 3)) % 256) as u8;
    let sum_b = ((b1 + rotated_left(b2, 3)) % 256) as u8;
    lemma_same_rotated(sum_a, sum_b);
}

proof fn lemma_same_rotated(v: u8, w: u8)
    ensures
        rotated_left(v, 3) == rotated_left(w, 3) ==> v == w,
{
    law_rotation_is_undone(v, 3);
    law_rotation_is_undone(w, 3);
}

/// A wrong first byte does not get past the checksum.
pub proof fn law_checksum_detects_a_wrong_first_byte(b1: u8, b2: u8, wrong: u8)
    requires
        wrong != b1,
    ensures
        checksum_of(wrong, b2) != checksum_of(b1, b2),
{
    if checksum_of(wrong, b2) == checksum_of(b1, b2) {
        lemma_same_checksum(wrong, b2, b1, b2);
        lemma_same_sum(wrong, b1, rotated_left(b2, 3), rotated_left(b2, 3));
    }
}

/// A wrong second byte does not get past the checksum.
pub proof fn law_checksum_detects_a_wrong_second_byte(b1: u8, b2: u8, wrong: u8)
    requires
        wrong != b2,
    ensures
        checksum_of(b1, wrong) != checksum_of(b1, b2),
{
    if checksum_of(b1, wrong) == checksum_of(b1, b2) {
        lemma_same_checksum(b1, wrong, b1, b2);
        lemma_same_sum(b1, b1, rotated_left(wrong, 3), rotated_left(b2, 3));
        lemma_same_rotated(wrong, b2);
    }
}

/// The three transmissions are read without rotation, and rotated back by three and by six bits.
/// The first one whose checksum is right counts.
pub proof fn law_transmissions_are_rotated(values: Seq<u8>)
    requires
        values.len() == 9,
    ensures
        ({
            let whole = |b1: u8, b2: u8, cs: u8| cs == checksum_of(b1, b2);
            let back = |k: int, shift: u8| rotated_right(values[k], shift);
            let read = transmitted(values);
            if whole(values[0], values[1], values[2]) {
                read == Some((values[0], values[1]))
            } else if whole(back(3, 3), back(4, 3), back(5, 3)) {
                read == Some((back(3, 3), back(4, 3)))
            } else if whole(back(6, 6), back(7, 6), back(8, 6)) {
                read == Some((back(6, 6), back(7, 6)))
            } else {
                read is None
            }
        }),
{
    assert forall|v: u8| #[trigger] rotated_right(v, 0) == v by {
        assert(v as int % 1 == 0);
    }
}

/// Which bit of the two data bytes tells about which button. A pressed button clears its bit, but
/// two of them are wired the other way round.
pub proof fn law_wiring_of_buttons(v1: u8, v2: u8)
    ensures
        pressed(v1, v2, 0) <==> v2 & 0x10u8 == 0,
        pressed(v1, v2, 1) <==> v2 & 0x08u8 == 0,
        pressed(v1, v2, 2) <==> v2 & 0x04u8 == 0,
        pressed(v1, v2, 3) <==> v2 & 0x02u8 == 0,
        pressed(v1, v2, 4) <==> v1 & 0x20u8 == 0,
        pressed(v1, v2, 5) <==> v1 & 0x10u8 == 0,
        pressed(v1, v2, 6) <==> v1 & 0x08u8 == 0,
        pressed(v1, v2, 7) <==> v2 & 0x01u8 == 0,
        pressed(v1, v2, 8) <==> v1 & 0x04u8 == 0,
        pressed(v1, v2, 9) <==> v1 & 0x02u8 == 0,
        pressed(v1, v2, 10) <==> v1 & 0x01u8 != 0,
        pressed(v1, v2, 11) <==> v2 & 0x80u8 != 0,
        pressed(v1, v2, 12) <==> v2 & 0x40u8 == 0,
        pressed(v1, v2, 13) <==> v2 & 0x20u8 == 0,
        pressed(v1, v2, 14) <==> v1 & 0x80u8 == 0,
        pressed(v1, v2, 15) <==> v1 & 0x40u8 == 0,
{
    lemma_byte_masks(v1);
    lemma_byte_masks(v2);
}

/// The start of the board reads its ten registers. If the second bit of the first one is set, the
/// watchdog did not reset the board, and it is ready. Otherwise the reset is cleared by a write of
/// that bit, and the board is read again. After two such writes it is given up.
pub proof fn law_board_is_started(
    setup: ButtonExpanderSetup,
    registers: Seq<u8>,
    reply: Seq<u8>,
    err: Seq<char>,
)
    requires
        registers.len() == 10,
    ensures
        setup is Read ==> setup.needs() == (RequestView::WriteRead {
            address: 62,
            bytes: seq![0u8],
            len: 10,
        }),
        setup is Reset ==> setup.needs() == (RequestView::Write {
            address: 62,
            bytes: seq![0u8, 2u8],
        }),
        setup matches ButtonExpanderSetup::Read { resets } ==> {
            &&& registers[0] & 2u8 != 0 ==> setup.after(Ok(registers)) == SetupStepView::Done(
                Ok(()),
            )
            &&& registers[0] & 2u8 == 0 && resets < 2 ==> setup.after(Ok(registers))
                == SetupStepView::Next(ButtonExpanderSetup::Reset { resets: (resets + 1) as u8 })
            &&& registers[0] & 2u8 == 0 && resets >= 2 ==> setup.after(Ok(registers))
                == SetupStepView::Done(
                Err(seq!["board has sticky watchdog reset?"@]),
            )
            &&& setup.after(Err(err)) == SetupStepView::Done(
                Err(
                    seq![
                        "unable to read expander state"@,
                        "I2C error: "@ + quoted_text("I2C operation failed: "@ + err),
                    ],
                ),
            )
        },
        setup matches ButtonExpanderSetup::Reset { resets } ==> {
            &&& setup.after(Ok(reply)) == SetupStepView::Next(ButtonExpanderSetup::Read { resets })
            &&& setup.after(Err(err)) == SetupStepView::Done(
                Err(seq!["I2C error: "@ + quoted_text("I2C operation failed: "@ + err)]),
            )
        },
{
    lemma_byte_masks(registers[0]);
    let message = "I2C error: "@ + quoted_text("I2C operation failed: "@ + err);
    assert(within("unable to read expander state"@, failed(message)) =~= seq![
        "unable to read expander state"@,
        message,
    ]);
}

/// Failed readouts are counted, and forgotten with the first one that succeeds. Ten thousand of
/// them in a row mean that the board is dead.
pub proof fn law_dead_board(
    run: ButtonExpanderRun,
    err: Seq<char>,
    registers: Seq<u8>,
    event: BoardEvent,
)
    requires
        run.phase is Read,
        run.consecutive_i2c_errors <= 10000,
        registers.len() == 10,
    ensures
        ({
            let after = run.after(Err(err));
            &&& after.phase is Read
            &&& run.consecutive_i2c_errors < 10000 ==> after.consecutive_i2c_errors
                == run.consecutive_i2c_errors + 1
            &&& run.consecutive_i2c_errors == 10000 ==> after.consecutive_i2c_errors == 10000
            &&& run.leads_to(Err(err), event) <==> (event matches BoardEvent::BusError {
                description,
                dead,
            } && description@ == "I2C operation failed: "@ + err && dead
                == (run.consecutive_i2c_errors >= 9999))
            &&& run.after(Ok(registers)).consecutive_i2c_errors == 0
        }),
{
}

/// A readout in which the second bit of the first register is set tells the buttons, if a
/// transmission was good. If that bit is not set, the reset by the watchdog is cleared, as often as
/// it takes, before the buttons are read again.
pub proof fn law_watchdog_reset_is_cleared(
    run: ButtonExpanderRun,
    registers: Seq<u8>,
    reply: Seq<u8>,
    err: Seq<char>,
    event: BoardEvent,
)
    requires
        registers.len() == 10,
    ensures
        run.phase is ResetWatchdog ==> run.needs() == (RequestView::Write {
            address: 62,
            bytes: seq![0u8, 2u8],
        }),
        !(run.phase is ResetWatchdog) ==> run.needs() == (RequestView::WriteRead {
            address: 62,
            bytes: seq![0u8],
            len: 10,
        }),
        !(run.phase is ResetWatchdog) ==> (run.after(Ok(registers)).phase is Read <==> registers[0]
            & 2u8 != 0),
        !(run.phase is ResetWatchdog) ==> (run.after(Ok(registers)).phase is ResetWatchdog
            <==> registers[0] & 2u8 == 0),
        run.phase is ResetWatchdog ==> run.after(Ok(reply)).phase is ReadAgain,
        run.phase is ResetWatchdog ==> run.after(Err(err)).phase is ResetWatchdog,
        run.phase is ReadAgain ==> run.after(Err(err)).phase is ResetWatchdog,
        run.phase is Read && registers[0] & 2u8 == 0 ==> (run.leads_to(Ok(registers), event)
            <==> event is WatchdogReset),
        run.phase is Read && registers[0] & 2u8 != 0 && run.leads_to(Ok(registers), event) ==> {
            match transmitted(registers.skip(1)) {
                None => event is ChecksumError,
                Some((v1, v2)) => event matches BoardEvent::Pins(vals) && forall|i: int|
                    0 <= i < 16 ==> #[trigger] pin_set(vals, i) == pressed(v1, v2, i),
            }
        },
        !(run.phase is Read) ==> (run.leads_to(Ok(registers), event) <==> event is Quiet),
{
    lemma_byte_masks(registers[0]);
    assert(registers.skip(1) =~= registers.subrange(1, 10));
}

/// What the registers say: the lowest bit of the first one, whether a readout is pending; the next
/// bit, if it is clear, that the watchdog reset the board; and the other registers, which buttons
/// are pressed. Those from 8 on are in the first byte, the others in the second one, each in the
/// order of bits.
pub proof fn law_registers_show_the_state(state: ButtonExpanderState, registers: Seq<u8>, i: int)
    requires
        registers.len() == 10,
        shows_state(state, registers),
        0 <= i < 8,
    ensures
        state.readout_pending <==> registers[0] & 1u8 != 0,
        state.watchdog_reset <==> registers[0] & 2u8 == 0,
        match transmitted(registers.skip(1)) {
            None => state.data == ButtonExpanderData::ChecksumError,
            Some((v1, v2)) => state.data matches ButtonExpanderData::Pins { pin_a, pin_b } && {
                &&& digit(pin_a as int, i) == pressed(v1, v2, i + 8)
                &&& digit(pin_b as int, i) == pressed(v1, v2, i)
            },
        },
{
    lemma_byte_masks(registers[0]);
    assert(registers.skip(1) =~= registers.subrange(1, 10));
    match transmitted(registers.skip(1)) {
        None => {},
        Some((v1, v2)) => {
            assert(pressed(v1, v2, i + 8) == !pin_high(v1, v2, 15 - i));
            assert(pressed(v1, v2, i) == !pin_high(v1, v2, 7 - i));
        },
    }
}

} // verus!
