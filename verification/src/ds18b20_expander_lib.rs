//! An expander that connects up to 120 DS18B20 temperature sensors, on four buses, to I2C.
//!
//! The registers of the expander are a status register, three bytes that end in a CRC, the number
//! of data bytes, and the data bytes themselves. The CRC covers the number and the data bytes.
use vstd::arithmetic::power2::{
    lemma2_to64, lemma2_to64_rest, lemma_pow2_adds, lemma_pow2_strictly_increases, pow2,
};
use vstd::prelude::*;

use crate::bits::place_value;
use crate::i2c::{read_from_register, reply_view, write_register, I2cRequest, RequestView};
use crate::text::{concatenated, quoted, quoted_text, tagged};

verus! {

/// Error code signaling that the device did not answer to its address.
pub const ERROR_CODE_DEVICE_NOT_FOUND: u16 = 0xA800;

/// Error code signaling that the CRC check for the data read from the device failed.
pub const ERROR_CODE_CRC_CHECK_FAILED: u16 = 0x5000;

/// The temperature value read from an uninitialized device.
pub const ERROR_CODE_INITIAL_TEMPERATURE: u16 = 0x0550;

/// The number of registers.
pub const BUFFER_LEN: usize = 254;

/// The number of sensors on one bus.
pub const SENSORS_PER_BUS: usize = 30;

/// The number of buses.
pub const BUS_COUNT: u8 = 4;

/// How long the expander takes to scan a bus or to measure, in milliseconds.
pub const SETTLE_MILLIS: u16 = 2000;

/// The pause before the registers are read once more, in milliseconds.
pub const BACKOFF_MILLIS: u16 = 100;

/// Errors that may occur when reading the expander.
#[derive(Debug)]
pub enum ExpanderError {
    /// Occurs for a failed I2C bus operation.
    Bus(String),
    /// Occurs if the CRC check for the entire data of the expander failed.
    CrcMismatch,
    /// Occurs if the expander misbehaves.
    BadExpander(String),
    /// Occurs if the maximum number of retries was exceeded.
    /// Contains the error encountered during the last retry.
    MaxRetriesExceeded(Box<ExpanderError>),
}

/// An error as contracts see it.
pub enum ErrorView {
    Bus(Seq<char>),
    CrcMismatch,
    BadExpander(Seq<char>),
    MaxRetriesExceeded(Box<ErrorView>),
}

impl ErrorView {
    /// The message for users.
    pub open spec fn message(self) -> Seq<char>
        decreases self,
    {
        match self {
            ErrorView::Bus(err) => "I2C operation failed: "@ + err,
            ErrorView::CrcMismatch => "CRC mismatch"@,
            ErrorView::BadExpander(err) => "Expander misbehaved: "@ + err,
            ErrorView::MaxRetriesExceeded(err) => "Max retries exceeded. Last error: "@
                + err.message(),
        }
    }

    /// The text that is put on the ports of a failed expander.
    pub open spec fn text(self) -> Seq<char>
        decreases self,
    {
        match self {
            ErrorView::Bus(err) => "Bus"@ + "("@ + quoted_text(err) + ")"@,
            ErrorView::CrcMismatch => "CrcMismatch"@,
            ErrorView::BadExpander(err) => "BadExpander"@ + "("@ + quoted_text(err) + ")"@,
            ErrorView::MaxRetriesExceeded(err) => "MaxRetriesExceeded"@ + "("@ + err.text() + ")"@,
        }
    }
}

impl ExpanderError {
    /// The error as contracts see it.
    pub open spec fn error_view(self) -> ErrorView
        decreases self,
    {
        match self {
            ExpanderError::Bus(err) => ErrorView::Bus(err@),
            ExpanderError::CrcMismatch => ErrorView::CrcMismatch,
            ExpanderError::BadExpander(err) => ErrorView::BadExpander(err@),
            ExpanderError::MaxRetriesExceeded(err) => ErrorView::MaxRetriesExceeded(
                Box::new(err.error_view()),
            ),
        }
    }

    /// The error of a bus operation that failed.
    pub fn from_i2c_error(err: String) -> (error: Self)
        ensures
            error.error_view() == ErrorView::Bus(err@),
    {
        ExpanderError::Bus(err)
    }

    /// The message for users.
    pub fn message(&self) -> (message: String)
        ensures
            message@ == self.error_view().message(),
        decreases self,
    {
        match self {
            ExpanderError::Bus(err) => concatenated("I2C operation failed: ", err.as_str()),
            ExpanderError::CrcMismatch => "CRC mismatch".to_owned(),
            ExpanderError::BadExpander(err) => concatenated("Expander misbehaved: ", err.as_str()),
            ExpanderError::MaxRetriesExceeded(err) => {
                let last = err.message();
                concatenated("Max retries exceeded. Last error: ", last.as_str())
            },
        }
    }

    /// The text that is put on the ports of a failed expander.
    pub fn text(&self) -> (text: String)
        ensures
            text@ == self.error_view().text(),
        decreases self,
    {
        match self {
            ExpanderError::Bus(err) => tagged("Bus", quoted(err.as_str()).as_str()),
            ExpanderError::CrcMismatch => "CrcMismatch".to_owned(),
            ExpanderError::BadExpander(err) => tagged(
                "BadExpander",
                quoted(err.as_str()).as_str(),
            ),
            ExpanderError::MaxRetriesExceeded(err) => {
                let last = err.text();
                tagged("MaxRetriesExceeded", last.as_str())
            },
        }
    }
}

/// A result as contracts see it.
pub open spec fn data_view(result: Result<Vec<u8>, ExpanderError>) -> Result<Seq<u8>, ErrorView> {
    match result {
        Ok(data) => Ok(data@),
        Err(error) => Err(error.error_view()),
    }
}

/// Errors that may occur when interpreting the data for one sensor attached to the expander.
#[derive(Debug, Clone, Copy, PartialEq, Eq, Structural)]
pub enum SensorError {
    /// Occurs if the device does not answer to its address.
    DeviceNotFound,
    /// Occurs if the checksum value from the sensor is incorrect.
    Checksum,
    /// Occurs if a suspicious value is returned from the sensor.
    SuspiciousValue,
}

impl SensorError {
    /// The name of the error.
    pub open spec fn name_view(self) -> Seq<char> {
        match self {
            SensorError::DeviceNotFound => "DeviceNotFound"@,
            SensorError::Checksum => "Checksum"@,
            SensorError::SuspiciousValue => "SuspiciousValue"@,
        }
    }

    /// The name of the error.
    pub fn name(&self) -> (name: String)
        ensures
            name@ == self.name_view(),
    {
        match self {
            SensorError::DeviceNotFound => "DeviceNotFound".to_owned(),
            SensorError::Checksum => "Checksum".to_owned(),
            SensorError::SuspiciousValue => "SuspiciousValue".to_owned(),
        }
    }
}

/// A CRC register after `n` bits were shifted out of it, lowest bits first. Each bit that was set
/// brings in the polynomial.
pub open spec fn crc8_shifted(register: u8, n: nat) -> u8
    decreases n,
{
    if n == 0 {
        register
    } else {
        let before = crc8_shifted(register, (n - 1) as nat);
        if before % 2 == 1 {
            (before / 2) ^ 0x8c
        } else {
            before / 2
        }
    }
}

/// The CRC-8/MAXIM-DOW of some bytes. The register starts with zero, and takes in byte by byte.
pub open spec fn crc8_maxim_dow(data: Seq<u8>) -> u8
    decreases data.len(),
{
    if data.len() == 0 {
        0
    } else {
        crc8_shifted(crc8_maxim_dow(data.drop_last()) ^ data.last(), 8)
    }
}

/// Calls `crc::Crc::<u8>::new` with the algorithm `crc::CRC_8_MAXIM_DOW`, and its `checksum` on the
/// bytes. The algorithm is reflected in both directions, has the polynomial 0x31, which is 0x8c
/// with its bits reversed, starts with zero, and changes nothing at the end.
#[verifier::external_body]
fn calculate_crc(data: &[u8]) -> (crc: u8)
    ensures
        crc == crc8_maxim_dow(data@),
{
    let maxim_calculator = crc::Crc::<u8>::new(&crc::CRC_8_MAXIM_DOW);
    maxim_calculator.checksum(data)
}

/// The registers as far as the number of data bytes goes.
pub open spec fn truncated(registers: Seq<u8>) -> Seq<u8> {
    let end = registers[4] as int + 5;
    if end >= registers.len() {
        registers
    } else {
        registers.take(end)
    }
}

/// Cuts the registers off behind the data bytes.
pub fn truncate_to_length(registers: &[u8]) -> (result: &[u8])
    requires
        registers@.len() > 4,
    ensures
        result@ == truncated(registers@),
{
    let expected_length: usize = registers[4] as usize;
    if expected_length + 5 >= registers.len() {
        return registers;
    }
    let result = &registers[0..expected_length + 5];
    assert(result@ =~= registers@.take(expected_length + 5));
    result
}

/// Compares the CRC in the registers with the calculated one.
pub fn check_crc(registers: &[u8], calculated_crc: u8) -> (result: Result<(), ExpanderError>)
    requires
        registers@.len() > 3,
    ensures
        registers@[3] == calculated_crc ==> result is Ok,
        registers@[3] != calculated_crc ==> result == Err::<(), ExpanderError>(
            ExpanderError::CrcMismatch,
        ),
{
    if registers[3] != calculated_crc {
        Err(ExpanderError::CrcMismatch)
    } else {
        Ok(())
    }
}

/// Checks the CRC of the registers.
pub fn validate_crc(registers: &[u8]) -> (result: Result<(), ExpanderError>)
    requires
        registers@.len() > 3,
    ensures
        registers@[3] == crc8_maxim_dow(registers@.skip(4)) ==> result is Ok,
        registers@[3] != crc8_maxim_dow(registers@.skip(4)) ==> result == Err::<(), ExpanderError>(
            ExpanderError::CrcMismatch,
        ),
{
    let data_and_length = &registers[4..registers.len()];
    assert(data_and_length@ =~= registers@.skip(4));
    let calculated_crc: u8 = calculate_crc(data_and_length);
    check_crc(registers, calculated_crc)
}

/// The outcome for one sensor, from the sixteen bits that the expander holds for it. A temperature
/// is a number of sixteenths of a degree Celsius, its highest four bits say whether it is below
/// zero. The expander has codes for failures. Temperatures below -50 degrees are not trusted.
pub open spec fn temperature_of(v: u16) -> Result<i16, SensorError> {
    let magnitude = v as int % 4096;
    if v == ERROR_CODE_CRC_CHECK_FAILED {
        Err(SensorError::Checksum)
    } else if v == ERROR_CODE_DEVICE_NOT_FOUND {
        Err(SensorError::DeviceNotFound)
    } else if v == ERROR_CODE_INITIAL_TEMPERATURE {
        Err(SensorError::SuspiciousValue)
    } else if v < 0x1000 {
        Ok(magnitude as i16)
    } else if v < 0xF000 || magnitude > 800 {
        Err(SensorError::SuspiciousValue)
    } else {
        Ok(-magnitude as i16)
    }
}

/// Interprets the sixteen bits of one sensor.
pub fn parse_temperature(v: u16) -> (result: Result<i16, SensorError>)
    ensures
        result == temperature_of(v),
{
    assert((v & 0xF000 == 0) == (v < 0x1000)) by (bit_vector);
    assert((v & 0xF000 == 0xF000) == (v >= 0xF000)) by (bit_vector);
    assert((v & 0x0FFF) == v % 4096) by (bit_vector);
    assert(v >= 0xF000 ==> v & 0x8000 != 0) by (bit_vector);
    assert(v < 0x1000 ==> v & 0x8000 == 0) by (bit_vector);
    if v == ERROR_CODE_CRC_CHECK_FAILED {
        return Err(SensorError::Checksum);
    }
    if v == ERROR_CODE_DEVICE_NOT_FOUND {
        return Err(SensorError::DeviceNotFound);
    }
    if v == ERROR_CODE_INITIAL_TEMPERATURE {
        return Err(SensorError::SuspiciousValue);
    }
    if v & 0xF000 != 0xF000 && v & 0xF000 != 0 {
        return Err(SensorError::SuspiciousValue);
    }
    let magnitude: i16 = (v & 0x0FFF) as i16;
    let sixteenths: i16 = if v & 0x8000 != 0 {
        -magnitude
    } else {
        magnitude
    };
    if sixteenths < -800 {
        Err(SensorError::SuspiciousValue)
    } else {
        Ok(sixteenths)
    }
}

/// The outcomes for all sensors, from the data bytes. Each sensor has two bytes, the lower one
/// first.
pub open spec fn temperatures_of(data: Seq<u8>) -> Seq<Result<i16, SensorError>> {
    Seq::new(
        data.len() / 2,
        |i: int| temperature_of((data[2 * i] + 256 * data[2 * i + 1]) as u16),
    )
}

/// Interprets the data bytes as temperatures.
pub fn parse_temperature_results(data: &[u8]) -> (result: Result<
    Vec<Result<i16, SensorError>>,
    ExpanderError,
>)
    ensures
        data@.len() % 2 == 0 ==> (result matches Ok(values) && values@ == temperatures_of(data@)),
        data@.len() % 2 != 0 ==> (result matches Err(error) && error.error_view()
            == ErrorView::BadExpander("invalid length"@)),
{
    if data.len() % 2 != 0 {
        return Err(ExpanderError::BadExpander("invalid length".to_owned()));
    }
    let len: usize = data.len();
    let count: usize = len / 2;
    let mut values: Vec<Result<i16, SensorError>> = Vec::new();
    let mut i: usize = 0;
    while i < count
        invariant
            data@.len() == 2 * count,
            2 * count <= usize::MAX,
            i <= count,
            values@ == temperatures_of(data@).take(i as int),
        decreases count - i,
    {
        let low: u8 = data[2 * i];
        let high: u8 = data[2 * i + 1];
        assert((((high as u16) << 8) | (low as u16)) == low + 256 * high) by (bit_vector);
        values.push(parse_temperature(((high as u16) << 8) | (low as u16)));
        i += 1;
        assert(values@ =~= temperatures_of(data@).take(i as int));
    }
    assert(temperatures_of(data@).take(count as int) =~= temperatures_of(data@));
    Ok(values)
}

/// The number that some bytes stand for, highest byte first.
pub open spec fn big_endian(bytes: Seq<u8>) -> nat
    decreases bytes.len(),
{
    if bytes.len() == 0 {
        0
    } else {
        256 * big_endian(bytes.drop_last()) + bytes.last() as nat
    }
}

proof fn lemma_big_endian_bound(bytes: Seq<u8>)
    ensures
        big_endian(bytes) < pow2(8 * bytes.len()),
    decreases bytes.len(),
{
    lemma2_to64();
    if bytes.len() > 0 {
        lemma_big_endian_bound(bytes.drop_last());
        lemma_pow2_adds(8 * (bytes.len() - 1) as nat, 8);
        assert(pow2(8 * bytes.len()) == pow2(8 * (bytes.len() - 1) as nat) * 256);
    }
}

/// The sensor IDs in the data bytes. Each one has eight bytes, the highest first.
pub open spec fn ids_of(data: Seq<u8>) -> Seq<u64> {
    Seq::new(
        data.len() / 8,
        |i: int| big_endian(data.subrange(8 * i, 8 * i + 8)) as u64,
    )
}

fn parse_id(bytes: &[u8]) -> (id: u64)
    requires
        bytes@.len() == 8,
    ensures
        id == big_endian(bytes@),
{
    let mut id: u64 = 0;
    let mut i: usize = 0;
    while i < 8
        invariant
            bytes@.len() == 8,
            i <= 8,
            id == big_endian(bytes@.take(i as int)),
        decreases 8 - i,
    {
        let byte: u8 = bytes[i];
        proof {
            lemma_big_endian_bound(bytes@.take(i as int));
            lemma2_to64_rest();
            if i < 7 {
                lemma_pow2_strictly_increases((8 * i) as nat, 56);
            }
            assert(id < 0x100_0000_0000_0000 ==> ((id << 8) | (byte as u64)) == 256 * id + byte)
                by (bit_vector);
            assert(bytes@.take(i + 1).drop_last() =~= bytes@.take(i as int));
            assert(bytes@.take(i + 1).last() == byte);
        }
        id = (id << 8) | (byte as u64);
        i += 1;
    }
    assert(bytes@.take(8) =~= bytes@);
    id
}

/// Interprets the data bytes as sensor IDs.
pub fn parse_device_id_results(data: &[u8]) -> (result: Result<Vec<u64>, ExpanderError>)
    ensures
        data@.len() % 8 == 0 ==> (result matches Ok(ids) && ids@ == ids_of(data@)),
        data@.len() % 8 != 0 ==> (result matches Err(error) && error.error_view()
            == ErrorView::BadExpander("invalid length"@)),
{
    if data.len() % 8 != 0 {
        return Err(ExpanderError::BadExpander("invalid length".to_owned()));
    }
    let len: usize = data.len();
    let count: usize = len / 8;
    let mut ids: Vec<u64> = Vec::new();
    let mut i: usize = 0;
    while i < count
        invariant
            data@.len() == 8 * count,
            8 * count <= usize::MAX,
            i <= count,
            ids@ == ids_of(data@).take(i as int),
        decreases count - i,
    {
        ids.push(parse_id(&data[8 * i..8 * i + 8]));
        i += 1;
        proof {
            lemma_big_endian_bound(data@.subrange(8 * (i - 1), 8 * (i - 1) + 8));
            lemma2_to64();
            assert(ids@ =~= ids_of(data@).take(i as int));
        }
    }
    assert(ids_of(data@).take(count as int) =~= ids_of(data@));
    Ok(ids)
}

/// All registers, if the bus yielded the first of them. The others are taken to be zero.
pub open spec fn filled(bytes: Seq<u8>) -> Seq<u8> {
    bytes + Seq::new((254 - bytes.len()) as nat, |i: int| 0u8)
}

/// The data bytes in a reply of the bus, if their CRC is right.
pub open spec fn registers_data(reply: Result<Seq<u8>, Seq<char>>) -> Result<Seq<u8>, ErrorView> {
    match reply {
        Err(message) => Err(ErrorView::Bus(message)),
        Ok(bytes) => {
            let registers = truncated(filled(bytes));
            if registers[3] == crc8_maxim_dow(registers.skip(4)) {
                Ok(registers.skip(5))
            } else {
                Err(ErrorView::CrcMismatch)
            }
        },
    }
}

/// Extracts the data bytes from a reply of the bus.
pub fn read_registers(reply: Result<Vec<u8>, String>) -> (result: Result<Vec<u8>, ExpanderError>)
    requires
        reply matches Ok(bytes) ==> bytes@.len() <= 254,
    ensures
        data_view(result) == registers_data(reply_view(reply)),
        result matches Ok(data) ==> data@.len() <= 249,
{
    let mut buffer: Vec<u8> = match reply {
        Ok(bytes) => bytes,
        Err(message) => {
            return Err(ExpanderError::from_i2c_error(message));
        },
    };
    let ghost bytes = buffer@;
    while buffer.len() < BUFFER_LEN
        invariant
            bytes.len() <= buffer@.len() <= 254,
            bytes.len() <= 254,
            buffer@ == filled(bytes).take(buffer@.len() as int),
        decreases 254 - buffer.len(),
    {
        buffer.push(0);
        assert(buffer@ =~= filled(bytes).take(buffer@.len() as int));
    }
    assert(filled(bytes).take(254) =~= filled(bytes));
    let registers = truncate_to_length(buffer.as_slice());
    match validate_crc(registers) {
        Ok(()) => {},
        Err(error) => {
            return Err(error);
        },
    }
    Ok(data_bytes(registers))
}

/// The data bytes of the registers, which stand behind their number.
pub fn data_bytes(registers: &[u8]) -> (data: Vec<u8>)
    requires
        registers@.len() >= 5,
    ensures
        data@ == registers@.skip(5),
{
    let mut data: Vec<u8> = Vec::new();
    let mut i: usize = 5;
    while i < registers.len()
        invariant
            5 <= i <= registers@.len(),
            data@ == registers@.subrange(5, i as int),
        decreases registers.len() - i,
    {
        data.push(registers[i]);
        i += 1;
        assert(data@ =~= registers@.subrange(5, i as int));
    }
    assert(data@ =~= registers@.skip(5));
    data
}

/// How far a readout of the expander is.
#[derive(Debug, Clone, Copy, PartialEq, Eq, Structural)]
pub enum ReadoutPhase {
    /// The command is to be written to the status register.
    Trigger,
    /// The expander needs time to execute the command.
    Settle,
    /// The registers are to be read, after the given number of failed attempts.
    Attempt(usize),
    /// A pause is to be made before the next attempt.
    Backoff(usize),
    /// The readout is over.
    Done,
}

/// A readout of the expander: a command, and attempts to read what it yielded.
#[derive(Debug, Clone, Copy, PartialEq, Eq, Structural)]
pub struct Readout {
    pub address: u8,
    pub command: u8,
    /// The number of data bytes to read.
    pub data_len: usize,
    /// The number of attempts to make.
    pub retries: usize,
    pub phase: ReadoutPhase,
}

/// What a readout needs next.
#[derive(Debug)]
pub enum ReadoutAction {
    /// A transaction on the bus.
    Send(I2cRequest),
    /// A pause of some milliseconds.
    Delay(u16),
    /// Nothing.
    Nothing,
}

/// What a readout needs next, as contracts see it.
pub enum ActionView {
    Send(RequestView),
    Delay(u16),
    Nothing,
}

impl View for ReadoutAction {
    type V = ActionView;

    open spec fn view(&self) -> ActionView {
        match self {
            ReadoutAction::Send(request) => ActionView::Send(request@),
            ReadoutAction::Delay(millis) => ActionView::Delay(*millis),
            ReadoutAction::Nothing => ActionView::Nothing,
        }
    }
}

impl Readout {
    /// At least one attempt is to be made, no more are made than planned, and what is read fits
    /// into the registers.
    pub open spec fn wf(self) -> bool {
        &&& self.retries > 0
        &&& self.data_len <= 249
        &&& self.phase matches ReadoutPhase::Attempt(k) ==> k < self.retries
        &&& self.phase matches ReadoutPhase::Backoff(k) ==> k + 1 < self.retries
    }

    /// What the readout needs next.
    pub open spec fn needs(self) -> ActionView {
        match self.phase {
            ReadoutPhase::Trigger => ActionView::Send(
                RequestView::Write { address: self.address, bytes: seq![0u8, self.command] },
            ),
            ReadoutPhase::Settle => ActionView::Delay(SETTLE_MILLIS),
            ReadoutPhase::Attempt(_) => ActionView::Send(
                RequestView::WriteRead {
                    address: self.address,
                    bytes: seq![0u8],
                    len: self.data_len + 5,
                },
            ),
            ReadoutPhase::Backoff(_) => ActionView::Delay(BACKOFF_MILLIS),
            ReadoutPhase::Done => ActionView::Nothing,
        }
    }

    /// Whether the readout waits for a reply of the bus.
    pub open spec fn awaits_reply(self) -> bool {
        self.phase is Trigger || self.phase is Attempt
    }

    /// Whether the readout waits for the end of a pause.
    pub open spec fn awaits_delay(self) -> bool {
        self.phase is Settle || self.phase is Backoff
    }

    /// The readout in another phase.
    pub open spec fn in_phase(self, phase: ReadoutPhase) -> Readout {
        Readout { phase, ..self }
    }

    /// The readout after a pause.
    pub open spec fn after_delay(self) -> Readout {
        match self.phase {
            ReadoutPhase::Settle => self.in_phase(ReadoutPhase::Attempt(0)),
            ReadoutPhase::Backoff(k) => self.in_phase(ReadoutPhase::Attempt((k + 1) as usize)),
            _ => self,
        }
    }

    /// The readout after a reply of the bus.
    pub open spec fn after_reply(self, reply: Result<Seq<u8>, Seq<char>>) -> Readout {
        match self.phase {
            ReadoutPhase::Trigger => self.in_phase(
                if reply is Ok {
                    ReadoutPhase::Settle
                } else {
                    ReadoutPhase::Done
                },
            ),
            ReadoutPhase::Attempt(k) => self.in_phase(
                if registers_data(reply) is Ok || k + 1 == self.retries {
                    ReadoutPhase::Done
                } else {
                    ReadoutPhase::Backoff(k)
                },
            ),
            _ => self,
        }
    }

    /// What a reply of the bus yields, if the readout is over with it.
    pub open spec fn yielded(self, reply: Result<Seq<u8>, Seq<char>>) -> Option<
        Result<Seq<u8>, ErrorView>,
    > {
        match self.phase {
            ReadoutPhase::Trigger => match reply {
                Ok(_) => None,
                Err(message) => Some(Err(ErrorView::Bus(message))),
            },
            ReadoutPhase::Attempt(k) => match registers_data(reply) {
                Ok(data) => Some(Ok(data)),
                Err(error) => if k + 1 == self.retries {
                    Some(Err(ErrorView::MaxRetriesExceeded(Box::new(error))))
                } else {
                    None
                },
            },
            _ => None,
        }
    }

    /// Says what the readout needs next.
    pub fn action(&self) -> (action: ReadoutAction)
        requires
            self.wf(),
        ensures
            action@ == self.needs(),
    {
        match self.phase {
            ReadoutPhase::Trigger => ReadoutAction::Send(
                write_register(self.address, 0x00, self.command),
            ),
            ReadoutPhase::Settle => ReadoutAction::Delay(SETTLE_MILLIS),
            ReadoutPhase::Attempt(_) => ReadoutAction::Send(
                read_from_register(self.address, 0x00, self.data_len + 5),
            ),
            ReadoutPhase::Backoff(_) => ReadoutAction::Delay(BACKOFF_MILLIS),
            ReadoutPhase::Done => ReadoutAction::Nothing,
        }
    }

    /// Continues after a pause.
    pub fn delayed(&mut self)
        requires
            old(self).wf(),
            old(self).awaits_delay(),
        ensures
            *final(self) == old(self).after_delay(),
            final(self).wf(),
    {
        match self.phase {
            ReadoutPhase::Settle => {
                self.phase = ReadoutPhase::Attempt(0);
            },
            ReadoutPhase::Backoff(k) => {
                self.phase = ReadoutPhase::Attempt(k + 1);
            },
            _ => {},
        }
    }

    /// Continues after a reply of the bus. Yields the data bytes, or an error, if the readout is
    /// over.
    pub fn replied(&mut self, reply: Result<Vec<u8>, String>) -> (result: Option<
        Result<Vec<u8>, ExpanderError>,
    >)
        requires
            old(self).wf(),
            old(self).awaits_reply(),
            reply matches Ok(bytes) ==> bytes@.len() <= 254,
        ensures
            *final(self) == old(self).after_reply(reply_view(reply)),
            final(self).wf(),
            old(self).yielded(reply_view(reply)) == (match result {
                Some(r) => Some(data_view(r)),
                None => None,
            }),
            result matches Some(Ok(data)) ==> data@.len() <= 249,
            result is Some <==> final(self).phase is Done,
    {
        match self.phase {
            ReadoutPhase::Trigger => match reply {
                Ok(_) => {
                    self.phase = ReadoutPhase::Settle;
                    None
                },
                Err(message) => {
                    self.phase = ReadoutPhase::Done;
                    Some(Err(ExpanderError::from_i2c_error(message)))
                },
            },
            ReadoutPhase::Attempt(k) => match read_registers(reply) {
                Ok(data) => {
                    self.phase = ReadoutPhase::Done;
                    Some(Ok(data))
                },
                Err(error) => if k == self.retries - 1 {
                    self.phase = ReadoutPhase::Done;
                    Some(Err(ExpanderError::MaxRetriesExceeded(Box::new(error))))
                } else {
                    self.phase = ReadoutPhase::Backoff(k);
                    None
                },
            },
            _ => None,
        }
    }
}

/// The expander, with the number of sensors that were found.
#[derive(Debug, Clone, Copy, PartialEq, Eq, Structural)]
pub struct Ds18b20Expander {
    pub address: u8,
    pub num_sensors: u8,
}

/// A result of sensor IDs, as contracts see it.
pub open spec fn ids_view(result: Result<Vec<u64>, ExpanderError>) -> Result<Seq<u64>, ErrorView> {
    match result {
        Ok(ids) => Ok(ids@),
        Err(error) => Err(error.error_view()),
    }
}

/// The sensor IDs in the data bytes of one bus.
pub open spec fn bus_ids(data: Result<Seq<u8>, ErrorView>) -> Result<Seq<u64>, ErrorView> {
    match data {
        Ok(bytes) => if bytes.len() % 8 == 0 {
            Ok(ids_of(bytes))
        } else {
            Err(ErrorView::BadExpander("invalid length"@))
        },
        Err(error) => Err(error),
    }
}

/// The temperatures in the data bytes of the expander.
pub open spec fn bus_temperatures(data: Result<Seq<u8>, ErrorView>) -> Result<
    Seq<Result<i16, SensorError>>,
    ErrorView,
> {
    match data {
        Ok(bytes) => if bytes.len() % 2 == 0 {
            Ok(temperatures_of(bytes))
        } else {
            Err(ErrorView::BadExpander("invalid length"@))
        },
        Err(error) => Err(error),
    }
}

impl Ds18b20Expander {
    /// Creates an expander on which no sensor was found yet.
    pub fn new(address: u8) -> (expander: Self)
        ensures
            expander == (Ds18b20Expander { address, num_sensors: 0 }),
    {
        Ds18b20Expander { address, num_sensors: 0 }
    }

    /// The write of a command to the status register.
    pub fn write_status_register(&self, val: u8) -> (request: I2cRequest)
        ensures
            request@ == (RequestView::Write { address: self.address, bytes: seq![0u8, val] }),
    {
        write_register(self.address, 0x00, val)
    }

    /// Starts to scan one of the four buses for sensors.
    pub fn scan_bus_for_devices(&self, bus: u8, retry_count: usize) -> (readout: Readout)
        requires
            bus < 4,
            retry_count > 0,
        ensures
            readout == (Readout {
                address: self.address,
                command: place_value(bus as int) as u8,
                data_len: 240,
                retries: retry_count,
                phase: ReadoutPhase::Trigger,
            }),
            readout.wf(),
    {
        assert(bus < 4 ==> 1u8 << bus == (if bus == 0 {
            1u8
        } else if bus == 1 {
            2
        } else if bus == 2 {
            4
        } else {
            8
        })) by (bit_vector);
        Readout {
            address: self.address,
            command: 1u8 << bus,
            data_len: SENSORS_PER_BUS * 8,
            retries: retry_count,
            phase: ReadoutPhase::Trigger,
        }
    }

    /// Starts to read the temperatures of all sensors.
    pub fn read_temperatures(&self, retry_count: usize) -> (readout: Readout)
        requires
            retry_count > 0,
            self.num_sensors <= 124,
        ensures
            readout == (Readout {
                address: self.address,
                command: 0b0001_0000,
                data_len: (2 * self.num_sensors) as usize,
                retries: retry_count,
                phase: ReadoutPhase::Trigger,
            }),
            readout.wf(),
    {
        Readout {
            address: self.address,
            command: 0b0001_0000,
            data_len: self.num_sensors as usize * 2,
            retries: retry_count,
            phase: ReadoutPhase::Trigger,
        }
    }

    /// Interprets what a readout of the temperatures yielded.
    pub fn fetch_temperatures(data: Result<Vec<u8>, ExpanderError>) -> (result: Result<
        Vec<Result<i16, SensorError>>,
        ExpanderError,
    >)
        ensures
            match result {
                Ok(values) => bus_temperatures(data_view(data)) == Ok::<
                    Seq<Result<i16, SensorError>>,
                    ErrorView,
                >(values@),
                Err(error) => bus_temperatures(data_view(data)) == Err::<
                    Seq<Result<i16, SensorError>>,
                    ErrorView,
                >(error.error_view()),
            },
    {
        match data {
            Ok(bytes) => parse_temperature_results(bytes.as_slice()),
            Err(error) => Err(error),
        }
    }
}

/// A scan of the buses, one after the other.
pub struct DeviceScan {
    bus: u8,
    ids: Vec<u64>,
}

/// How a scan goes on.
#[derive(Debug)]
pub enum ScanStep {
    /// The next bus is to be scanned.
    NextBus,
    /// The scan is over.
    Finished(Result<Vec<u64>, ExpanderError>),
}

impl DeviceScan {
    /// The bus that is being scanned.
    pub closed spec fn current_bus(&self) -> u8 {
        self.bus
    }

    /// The sensors that were found so far.
    pub closed spec fn found(&self) -> Seq<u64> {
        self.ids@
    }

    /// Not all buses were scanned, and those that were have no more sensors than fit in.
    pub open spec fn wf(&self) -> bool {
        &&& self.current_bus() < 4
        &&& self.found().len() <= 31 * self.current_bus()
    }

    /// Starts with the first bus.
    pub fn new() -> (scan: Self)
        ensures
            scan.wf(),
            scan.current_bus() == 0,
            scan.found() == Seq::<u64>::empty(),
    {
        DeviceScan { bus: 0, ids: Vec::new() }
    }

    /// The bus that is being scanned.
    pub fn bus(&self) -> (bus: u8)
        ensures
            bus == self.current_bus(),
    {
        self.bus
    }

    /// Takes over what the readout of one bus yielded. The scan ends with the first bus that
    /// fails, or with the last one. The expander then knows its number of sensors.
    pub fn bus_scanned(
        &mut self,
        expander: &mut Ds18b20Expander,
        data: Result<Vec<u8>, ExpanderError>,
    ) -> (step: ScanStep)
        requires
            old(self).wf(),
            data matches Ok(bytes) ==> bytes@.len() <= 249,
        ensures
            final(expander).address == old(expander).address,
            match bus_ids(data_view(data)) {
                Err(error) => {
                    &&& step matches ScanStep::Finished(result)
                    &&& ids_view(result) == Err::<Seq<u64>, ErrorView>(error)
                    &&& *final(expander) == *old(expander)
                },
                Ok(new_ids) => if old(self).current_bus() == 3 {
                    &&& step matches ScanStep::Finished(result)
                    &&& ids_view(result) == Ok::<Seq<u64>, ErrorView>(old(self).found() + new_ids)
                    &&& final(expander).num_sensors == (old(self).found() + new_ids).len()
                    &&& final(expander).num_sensors <= 124
                } else {
                    &&& step is NextBus
                    &&& final(self).wf()
                    &&& final(self).current_bus() == old(self).current_bus() + 1
                    &&& final(self).found() == old(self).found() + new_ids
                    &&& *final(expander) == *old(expander)
                },
            },
    {
        let bytes: Vec<u8> = match data {
            Ok(bytes) => bytes,
            Err(error) => {
                return ScanStep::Finished(Err(error));
            },
        };
        let mut new_ids: Vec<u64> = match parse_device_id_results(bytes.as_slice()) {
            Ok(ids) => ids,
            Err(error) => {
                return ScanStep::Finished(Err(error));
            },
        };
        let ghost added = new_ids@;
        let mut ids: Vec<u64> = Vec::new();
        ids.append(&mut self.ids);
        ids.append(&mut new_ids);
        assert(ids@ =~= old(self).found() + added);
        if self.bus == BUS_COUNT - 1 {
            expander.num_sensors = ids.len() as u8;
            return ScanStep::Finished(Ok(ids));
        }
        self.bus += 1;
        self.ids = ids;
        ScanStep::NextBus
    }
}

/// The readout after some attempts that were answered by the given replies, and what it yielded
/// if it is over. The pauses between the attempts are made.
pub open spec fn attempted(
    readout: Readout,
    replies: Seq<Result<Seq<u8>, Seq<char>>>,
) -> (Readout, Option<Result<Seq<u8>, ErrorView>>)
    decreases replies.len(),
{
    if replies.len() == 0 {
        (readout, None)
    } else {
        let (before, result) = attempted(readout, replies.drop_last());
        if result is Some {
            (before, result)
        } else {
            (before.after_reply(replies.last()).after_delay(), before.yielded(replies.last()))
        }
    }
}

proof fn lemma_failed_attempts(readout: Readout, replies: Seq<Result<Seq<u8>, Seq<char>>>)
    requires
        readout.wf(),
        readout.phase == ReadoutPhase::Attempt(0),
        replies.len() < readout.retries,
        forall|i: int| 0 <= i < replies.len() ==> registers_data(#[trigger] replies[i]) is Err,
    ensures
        attempted(readout, replies) == (
            readout.in_phase(ReadoutPhase::Attempt(replies.len() as usize)),
            None::<Result<Seq<u8>, ErrorView>>,
        ),
    decreases replies.len(),
{
    if replies.len() > 0 {
        let shorter = replies.drop_last();
        assert forall|i: int| 0 <= i < shorter.len() implies registers_data(
            #[trigger] shorter[i],
        ) is Err by {
            assert(shorter[i] == replies[i]);
        }
        lemma_failed_attempts(readout, shorter);
        assert(registers_data(replies[replies.len() - 1]) is Err);
    }
}

/// The first attempt whose CRC is right wins: failed attempts before it do no harm, as long as
/// there are fewer of them than attempts to make.
pub proof fn law_first_good_attempt_wins(
    readout: Readout,
    replies: Seq<Result<Seq<u8>, Seq<char>>>,
    data: Seq<u8>,
)
    requires
        readout.wf(),
        readout.phase == ReadoutPhase::Attempt(0),
        0 < replies.len() <= readout.retries,
        forall|i: int| 0 <= i < replies.len() - 1 ==> registers_data(#[trigger] replies[i]) is Err,
        registers_data(replies.last()) == Ok::<Seq<u8>, ErrorView>(data),
    ensures
        attempted(readout, replies).1 == Some(Ok::<Seq<u8>, ErrorView>(data)),
{
    let shorter = replies.drop_last();
    assert forall|i: int| 0 <= i < shorter.len() implies registers_data(
        #[trigger] shorter[i],
    ) is Err by {
        assert(shorter[i] == replies[i]);
    }
    lemma_failed_attempts(readout, shorter);
}

/// The number of attempts is bounded: once all planned attempts failed, the readout is over, and
/// reports the error of the last one.
pub proof fn law_attempts_are_bounded(
    readout: Readout,
    replies: Seq<Result<Seq<u8>, Seq<char>>>,
    last_error: ErrorView,
)
    requires
        readout.wf(),
        readout.phase == ReadoutPhase::Attempt(0),
        replies.len() == readout.retries,
        forall|i: int| 0 <= i < replies.len() ==> registers_data(#[trigger] replies[i]) is Err,
        registers_data(replies.last()) == Err::<Seq<u8>, ErrorView>(last_error),
    ensures
        attempted(readout, replies).0.phase is Done,
        attempted(readout, replies).1 == Some(
            Err::<Seq<u8>, ErrorView>(ErrorView::MaxRetriesExceeded(Box::new(last_error))),
        ),
{
    let shorter = replies.drop_last();
    assert forall|i: int| 0 <= i < shorter.len() implies registers_data(
        #[trigger] shorter[i],
    ) is Err by {
        assert(shorter[i] == replies[i]);
    }
    lemma_failed_attempts(readout, shorter);
}

/// Temperatures outside of -50 to 256 degrees Celsius never get through.
pub proof fn law_temperatures_are_plausible(v: u16)
    ensures
        temperature_of(v) matches Ok(sixteenths) ==> -50 * 16 <= sixteenths < 256 * 16,
{
}

/// The sixteen bits that the expander holds for a temperature: the number of sixteenths of a degree
/// in the lower twelve bits, and all other bits set if it is below zero.
pub open spec fn encoded_temperature(sixteenths: int) -> int {
    if sixteenths >= 0 {
        sixteenths
    } else {
        61440 - sixteenths
    }
}

/// Every temperature from -50 degrees up is read as it was encoded, but for the one of a sensor
/// that did not measure yet, which is 85 degrees.
pub proof fn law_temperature_reads_back(sixteenths: i16, v: u16)
    requires
        -800 <= sixteenths < 4096,
        sixteenths != 85 * 16,
        v == encoded_temperature(sixteenths as int),
    ensures
        temperature_of(v) == Ok::<i16, SensorError>(sixteenths),
{
}

/// What stands for no temperature is told as a failure of its own kind: a sensor that did not
/// answer, one whose data was damaged, and everything else.
pub proof fn law_failure_codes(v: u16)
    ensures
        temperature_of(v) == Err::<i16, SensorError>(SensorError::DeviceNotFound) <==> v == 43008,
        temperature_of(v) == Err::<i16, SensorError>(SensorError::Checksum) <==> v == 20480,
        temperature_of(v) == Err::<i16, SensorError>(SensorError::SuspiciousValue) <==> (v == 1360
            || (4096 <= v < 61440 && v != 43008 && v != 20480) || v > 61440 + 800),
{
}

/// Each sensor has two data bytes, the lower one first.
pub proof fn law_temperatures_in_the_order_of_sensors(
    data: Seq<u8>,
    sensor: int,
    sixteenths: i16,
)
    requires
        data.len() % 2 == 0,
        0 <= 2 * sensor < data.len(),
        -800 <= sixteenths < 4096,
        sixteenths != 85 * 16,
        data[2 * sensor] == encoded_temperature(sixteenths as int) % 256,
        data[2 * sensor + 1] == encoded_temperature(sixteenths as int) / 256,
    ensures
        ({
            let read = bus_temperatures(Ok(data));
            &&& read is Ok
            &&& 2 * read->Ok_0.len() == data.len()
            &&& read->Ok_0[sensor] == Ok::<i16, SensorError>(sixteenths)
        }),
{
    let v = (data[2 * sensor] + 256 * data[2 * sensor + 1]) as u16;
    assert(v == encoded_temperature(sixteenths as int));
    law_temperature_reads_back(sixteenths, v);
}

/// Each sensor ID has eight data bytes, the highest first.
pub proof fn law_ids_in_the_order_of_sensors(data: Seq<u8>, sensor: int)
    requires
        data.len() % 8 == 0,
        0 <= 8 * sensor < data.len(),
    ensures
        ({
            let read = bus_ids(Ok(data));
            let at = 8 * sensor;
            &&& read is Ok
            &&& 8 * read->Ok_0.len() == data.len()
            &&& read->Ok_0[sensor] == data[at] * 0x100_0000_0000_0000 + data[at + 1]
                * 0x1_0000_0000_0000 + data[at + 2] * 0x100_0000_0000 + data[at + 3] * 0x1_0000_0000
                + data[at + 4] * 0x100_0000 + data[at + 5] * 0x1_0000 + data[at + 6] * 0x100 + data[
            at + 7]
        }),
{
    let bytes = data.subrange(8 * sensor, 8 * sensor + 8);
    lemma_big_endian_bound(bytes);
    lemma2_to64();
    lemma_eight_bytes(bytes);
}

proof fn lemma_eight_bytes(bytes: Seq<u8>)
    requires
        bytes.len() == 8,
    ensures
        big_endian(bytes) == bytes[0] * 0x100_0000_0000_0000 + bytes[1] * 0x1_0000_0000_0000
            + bytes[2] * 0x100_0000_0000 + bytes[3] * 0x1_0000_0000 + bytes[4] * 0x100_0000
            + bytes[5] * 0x1_0000 + bytes[6] * 0x100 + bytes[7],
{
    reveal_with_fuel(big_endian, 9);
    let b7 = bytes.drop_last();
    let b6 = b7.drop_last();
    let b5 = b6.drop_last();
    let b4 = b5.drop_last();
    let b3 = b4.drop_last();
    let b2 = b3.drop_last();
    let b1 = b2.drop_last();
    assert(big_endian(b1.drop_last()) == 0);
    assert(big_endian(b1) == bytes[0]);
    assert(big_endian(b2) == 256 * big_endian(b1) + bytes[1]);
    assert(big_endian(b3) == 256 * big_endian(b2) + bytes[2]);
    assert(big_endian(b4) == 256 * big_endian(b3) + bytes[3]);
    assert(big_endian(b5) == 256 * big_endian(b4) + bytes[4]);
    assert(big_endian(b6) == 256 * big_endian(b5) + bytes[5]);
    assert(big_endian(b7) == 256 * big_endian(b6) + bytes[6]);
    assert(big_endian(bytes) == 256 * big_endian(b7) + bytes[7]);
}

/// Data is passed on exactly if its length is one of whole sensors. Errors are passed on as they
/// are.
pub proof fn law_lengths_are_checked(data: Seq<u8>, error: ErrorView)
    ensures
        bus_temperatures(Ok(data)) is Ok <==> data.len() % 2 == 0,
        bus_ids(Ok(data)) is Ok <==> data.len() % 8 == 0,
        bus_temperatures(Ok(data)) matches Err(e) ==> e == ErrorView::BadExpander(
            "invalid length"@,
        ),
        bus_ids(Ok(data)) matches Err(e) ==> e == ErrorView::BadExpander("invalid length"@),
        bus_temperatures(Err(error)) == Err::<Seq<Result<i16, SensorError>>, ErrorView>(error),
        bus_ids(Err(error)) == Err::<Seq<u64>, ErrorView>(error),
{
}

/// Data bytes arrive as they were sent, if the CRC of their number and of themselves is right, and
/// are refused otherwise. What stands before the CRC, or behind the data, does not matter.
pub proof fn law_data_arrives(
    before: Seq<u8>,
    crc: u8,
    data: Seq<u8>,
    behind: Seq<u8>,
    reply: Result<Seq<u8>, Seq<char>>,
)
    requires
        before.len() == 3,
        data.len() <= 249,
        data.len() + behind.len() <= 249,
        reply == Ok::<Seq<u8>, Seq<char>>(
            before + seq![crc, data.len() as u8] + data + behind,
        ),
    ensures
        crc == crc8_maxim_dow(seq![data.len() as u8] + data) ==> registers_data(reply) == Ok::<
            Seq<u8>,
            ErrorView,
        >(data),
        crc != crc8_maxim_dow(seq![data.len() as u8] + data) ==> registers_data(reply) == Err::<
            Seq<u8>,
            ErrorView,
        >(ErrorView::CrcMismatch),
{
    let bytes = before + seq![crc, data.len() as u8] + data + behind;
    let all = filled(bytes);
    assert(all.len() == 254);
    assert(all[4] == data.len());
    assert(all[3] == crc);
    let registers = truncated(all);
    assert(registers =~= before + seq![crc, data.len() as u8] + data);
    assert(registers[3] == crc);
    assert(registers.skip(4) =~= seq![data.len() as u8] + data);
    assert(registers.skip(5) =~= data);
}

/// A readout writes its command to the first register, waits two seconds, and reads the registers
/// up to the last data byte. Between two attempts it waits a tenth of a second. Without a reply to
/// the command it ends at once.
pub proof fn law_readout_in_steps(readout: Readout, bytes: Seq<u8>, err: Seq<char>)
    requires
        readout.wf(),
    ensures
        readout.phase is Trigger ==> {
            let settling = readout.after_reply(Ok(bytes));
            let reading = settling.after_delay();
            &&& readout.needs() == ActionView::Send(
                RequestView::Write { address: readout.address, bytes: seq![0u8, readout.command] },
            )
            &&& readout.yielded(Ok(bytes)) is None
            &&& settling.needs() == ActionView::Delay(2000)
            &&& reading.phase == ReadoutPhase::Attempt(0)
            &&& readout.after_reply(Err(err)).needs() == ActionView::Nothing
            &&& readout.yielded(Err(err)) == Some(
                Err::<Seq<u8>, ErrorView>(ErrorView::Bus(err)),
            )
        },
        readout.phase matches ReadoutPhase::Attempt(k) ==> {
            let waiting = readout.after_reply(Err(err));
            &&& readout.needs() == ActionView::Send(
                RequestView::WriteRead {
                    address: readout.address,
                    bytes: seq![0u8],
                    len: readout.data_len + 5,
                },
            )
            &&& k + 1 < readout.retries ==> {
                &&& waiting.needs() == ActionView::Delay(100)
                &&& waiting.after_delay() == (Readout {
                    phase: ReadoutPhase::Attempt((k + 1) as usize),
                    ..readout
                })
            }
            &&& k + 1 == readout.retries ==> waiting.needs() == ActionView::Nothing
            &&& registers_data(Ok(bytes)) is Ok ==> readout.after_reply(Ok(bytes)).needs()
                == ActionView::Nothing
        },
{
}

/// Errors are told with what caused them.
pub proof fn law_error_messages(err: Seq<char>, error: ErrorView)
    ensures
        ErrorView::Bus(err).message() == "I2C operation failed: "@ + err,
        ErrorView::CrcMismatch.message() == "CRC mismatch"@,
        ErrorView::BadExpander(err).message() == "Expander misbehaved: "@ + err,
        ErrorView::MaxRetriesExceeded(Box::new(error)).message()
            == "Max retries exceeded. Last error: "@ + error.message(),
        ErrorView::Bus(err).text() == "Bus("@ + quoted_text(err) + ")"@,
        ErrorView::CrcMismatch.text() == "CrcMismatch"@,
        ErrorView::BadExpander(err).text() == "BadExpander("@ + quoted_text(err) + ")"@,
        ErrorView::MaxRetriesExceeded(Box::new(error)).text() == "MaxRetriesExceeded("@
            + error.text() + ")"@,
{
    reveal_strlit("Bus");
    reveal_strlit("Bus(");
    reveal_strlit("(");
    reveal_strlit("BadExpander");
    reveal_strlit("BadExpander(");
    reveal_strlit("MaxRetriesExceeded");
    reveal_strlit("MaxRetriesExceeded(");
    assert("Bus"@ + "("@ =~= "Bus("@);
    assert("BadExpander"@ + "("@ =~= "BadExpander("@);
    assert("MaxRetriesExceeded"@ + "("@ =~= "MaxRetriesExceeded("@);
    reveal_with_fuel(ErrorView::message, 2);
    reveal_with_fuel(ErrorView::text, 2);
}

} // verus!
