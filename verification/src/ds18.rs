//! A DS18(B20) temperature sensor on a 1-wire bus.
//!
//! The kernel offers the temperature as a file with a text in it: a number of millidegrees and a
//! line break.
use vstd::prelude::*;
use vstd::utf8::{
    decode_utf8, encode_utf8, encode_utf8_decode_utf8, encode_utf8_valid_utf8, valid_utf8,
};

use crate::device_core::{all_updated, DeviceReadCore, PortView};
use crate::text::{concatenated, decimal};
use crate::value::{outcome, InputValue, InputValueType, Quantity, Timestamp};

verus! {

/// Configuration for a DS18(B20) 1wire temperature sensor.
#[derive(Debug)]
pub struct DS18Config {
    pub id: String,
    pub readout_interval_seconds: u8,
}

/// Whether a character has the Unicode property `White_Space`.
pub open spec fn is_white_space(c: char) -> bool {
    let code = c as u32;
    ||| 0x09 <= code <= 0x0d
    ||| code == 0x20
    ||| code == 0x85
    ||| code == 0xa0
    ||| code == 0x1680
    ||| 0x2000 <= code <= 0x200a
    ||| code == 0x2028
    ||| code == 0x2029
    ||| code == 0x202f
    ||| code == 0x205f
    ||| code == 0x3000
}

/// A text without the whitespace at its end.
pub open spec fn trimmed_end(text: Seq<char>) -> Seq<char>
    decreases text.len(),
{
    if text.len() > 0 && is_white_space(text.last()) {
        trimmed_end(text.drop_last())
    } else {
        text
    }
}

/// A text without the whitespace at its start.
pub open spec fn trimmed_start(text: Seq<char>) -> Seq<char>
    decreases text.len(),
{
    if text.len() > 0 && is_white_space(text.first()) {
        trimmed_start(text.drop_first())
    } else {
        text
    }
}

/// A text without the whitespace around it.
pub open spec fn trimmed(text: Seq<char>) -> Seq<char> {
    trimmed_end(trimmed_start(text))
}

/// Whether a text consists of decimal digits, of which there is at least one.
pub open spec fn is_digits(text: Seq<char>) -> bool {
    text.len() > 0 && forall|i: int| 0 <= i < text.len() ==> '0' <= #[trigger] text[i] <= '9'
}

/// The number that decimal digits stand for.
pub open spec fn digits_value(text: Seq<char>) -> nat
    decreases text.len(),
{
    if text.len() == 0 {
        0
    } else {
        digits_value(text.drop_last()) * 10 + (text.last() as int - 48) as nat
    }
}

/// The number that a text stands for: digits, with or without a sign in front of them.
pub open spec fn number_of(text: Seq<char>) -> Option<int> {
    if is_digits(text) {
        Some(digits_value(text) as int)
    } else if text.len() > 0 && text[0] == '-' && is_digits(text.drop_first()) {
        Some(-(digits_value(text.drop_first()) as int))
    } else if text.len() > 0 && text[0] == '+' && is_digits(text.drop_first()) {
        Some(digits_value(text.drop_first()) as int)
    } else {
        None
    }
}

/// The number that a text stands for, if it fits into 64 bits.
pub open spec fn integer_of(text: Seq<char>) -> Option<i64> {
    match number_of(text) {
        Some(n) => if i64::MIN <= n <= i64::MAX {
            Some(n as i64)
        } else {
            None
        },
        None => None,
    }
}

/// The description of what is wrong with bytes that are no UTF-8.
pub uninterp spec fn utf8_error_text(bytes: Seq<u8>) -> Seq<char>;

/// The description of what is wrong with a text that is no integer.
pub uninterp spec fn integer_error_text(text: Seq<char>) -> Seq<char>;

/// Calls `String::from_utf8`, which takes bytes that are valid UTF-8, and refuses others with an
/// error. The error is turned into its `Debug` text; what that says is not stated.
#[verifier::external_body]
fn from_utf8(bytes: Vec<u8>) -> (result: Result<String, String>)
    ensures
        match result {
            Ok(text) => valid_utf8(bytes@) && text@ == decode_utf8(bytes@),
            Err(message) => !valid_utf8(bytes@) && message@ == utf8_error_text(bytes@),
        },
{
    String::from_utf8(bytes).map_err(|err| format!("{:?}", err))
}

/// Calls `str::trim`, which removes the characters with the property `White_Space` from both ends
/// of a text.
#[verifier::external_body]
fn trim(text: &str) -> (result: String)
    ensures
        result@ == trimmed(text@),
{
    text.trim().to_owned()
}

/// Calls `str::parse` for an `i64`, which takes decimal digits with an optional sign in front of
/// them, and refuses everything else and numbers that do not fit. The error is turned into its
/// `Debug` text; what that says is not stated.
#[verifier::external_body]
fn parse_integer(text: &str) -> (result: Result<i64, String>)
    ensures
        match result {
            Ok(n) => integer_of(text@) == Some(n),
            Err(message) => integer_of(text@) is None && message@ == integer_error_text(text@),
        },
{
    text.parse::<i64>().map_err(|err| format!("{:?}", err))
}

/// The number of millidegrees that a text stands for, or why it stands for none.
pub open spec fn millidegrees_of(text: Seq<char>) -> Result<i64, Seq<char>> {
    match integer_of(trimmed(text)) {
        Some(n) => Ok(n),
        None => Err("unable to parse: "@ + integer_error_text(trimmed(text))),
    }
}

/// The number of millidegrees that the file of a sensor holds, or why it holds none.
pub open spec fn millidegrees(bytes: Seq<u8>) -> Result<i64, Seq<char>> {
    if valid_utf8(bytes) {
        millidegrees_of(decode_utf8(bytes))
    } else {
        Err("unable to parse: "@ + utf8_error_text(bytes))
    }
}

/// Reads the number of millidegrees from a text.
pub fn parse_text(text: &str) -> (result: Result<i64, String>)
    ensures
        outcome(result) == millidegrees_of(text@),
{
    let number = trim(text);
    match parse_integer(number.as_str()) {
        Ok(n) => Ok(n),
        Err(message) => Err(concatenated("unable to parse: ", message.as_str())),
    }
}

/// Reads the number of millidegrees from the contents of a sensor's file.
pub fn parse_millidegrees(bytes: Vec<u8>) -> (result: Result<i64, String>)
    ensures
        outcome(result) == millidegrees(bytes@),
{
    match from_utf8(bytes) {
        Err(message) => Err(concatenated("unable to parse: ", message.as_str())),
        Ok(text) => parse_text(text.as_str()),
    }
}

/// How a readout ended, for statistics.
#[derive(Clone, Copy, Debug, PartialEq, Eq, Structural)]
pub enum MeasurementOutcome {
    Success,
    Error,
    ConversionError,
}

/// The sensor as a device.
#[derive(Debug)]
pub struct DS18 {
    pub core: DeviceReadCore,
}

impl DS18 {
    /// The device has its port.
    pub open spec fn wf(&self) -> bool {
        self.core@.len() == 1
    }

    /// Checks a configuration.
    pub fn check_config(cfg: &DS18Config) -> (result: Result<(), String>)
        ensures
            outcome(result) == (if cfg.readout_interval_seconds >= 2 {
                Ok(())
            } else {
                Err("readout_interval_seconds must be at least 2"@)
            }),
    {
        if cfg.readout_interval_seconds >= 2 {
            Ok(())
        } else {
            Err("readout_interval_seconds must be at least 2".to_owned())
        }
    }

    /// Creates the device.
    pub fn new(alias: String) -> (device: Self)
        ensures
            device.wf(),
            device.core@ == seq![PortView::fresh(InputValueType::Temperature)],
            device.core.alias_text() == alias@,
    {
        let core = DeviceReadCore::uniform(alias, InputValueType::Temperature, 1);
        assert(core@ =~= seq![PortView::fresh(InputValueType::Temperature)]);
        DS18 { core }
    }

    /// Takes over the number of millidegrees that was read, or why there is none.
    pub fn handle_temperature(&mut self, parsed: Result<i64, String>, ts: Timestamp)
        requires
            old(self).wf(),
        ensures
            final(self).wf(),
            final(self).core.alias_text() == old(self).core.alias_text(),
            final(self).core@ == (match outcome(parsed) {
                Ok(n) => seq![
                    old(self).core@[0].updated(
                        ts,
                        Ok(InputValue::Temperature(Quantity::Thousandths(n))),
                        true,
                        false,
                    ),
                ],
                Err(message) => all_updated(old(self).core@, ts, Err(message), true, false),
            }),
    {
        match parsed {
            Ok(n) => {
                self.core.update_value_and_generate_events(
                    ts,
                    0,
                    Ok(InputValue::Temperature(Quantity::Thousandths(n))),
                    true,
                    false,
                );
                assert(self.core@ =~= seq![
                    old(self).core@[0].updated(
                        ts,
                        Ok(InputValue::Temperature(Quantity::Thousandths(n))),
                        true,
                        false,
                    ),
                ]);
            },
            Err(message) => {
                self.core.set_error_on_all_ports(ts, message.as_str());
            },
        }
    }

    /// Takes over what was read from the sensor's file.
    pub fn handle_readout(&mut self, readout: Result<Vec<u8>, String>, ts: Timestamp) -> (counted:
        MeasurementOutcome)
        requires
            old(self).wf(),
        ensures
            final(self).wf(),
            final(self).core.alias_text() == old(self).core.alias_text(),
            match readout {
                Ok(bytes) => match millidegrees(bytes@) {
                    Ok(n) => {
                        &&& counted == MeasurementOutcome::Success
                        &&& final(self).core@ == seq![
                            old(self).core@[0].updated(
                                ts,
                                Ok(InputValue::Temperature(Quantity::Thousandths(n))),
                                true,
                                false,
                            ),
                        ]
                    },
                    Err(message) => {
                        &&& counted == MeasurementOutcome::ConversionError
                        &&& final(self).core@ == all_updated(
                            old(self).core@,
                            ts,
                            Err(message),
                            true,
                            false,
                        )
                    },
                },
                Err(err) => {
                    &&& counted == MeasurementOutcome::Error
                    &&& final(self).core@ == all_updated(
                        old(self).core@,
                        ts,
                        Err("unable to read: "@ + err@),
                        true,
                        false,
                    )
                },
            },
    {
        match readout {
            Ok(bytes) => {
                let parsed = parse_millidegrees(bytes);
                let counted: MeasurementOutcome = if parsed.is_ok() {
                    MeasurementOutcome::Success
                } else {
                    MeasurementOutcome::ConversionError
                };
                self.handle_temperature(parsed, ts);
                counted
            },
            Err(err) => {
                let message = concatenated("unable to read: ", err.as_str());
                self.core.set_error_on_all_ports(ts, message.as_str());
                MeasurementOutcome::Error
            },
        }
    }

    /// The generic alias of a port.
    pub fn port_alias(port: u8) -> (result: Result<String, String>)
        ensures
            match result {
                Ok(alias) => port < 1 && alias@ == "temperature"@,
                Err(message) => port >= 1 && message@ == "DS18 has only one port"@,
            },
    {
        if port < 1 {
            Ok("temperature".to_owned())
        } else {
            Err("DS18 has only one port".to_owned())
        }
    }

    /// Starts to listen to the port.
    pub fn get_input_port(&mut self, port: u8) -> (result: Result<InputValueType, String>)
        requires
            old(self).wf(),
            port < 1 ==> old(self).core@[port as int].events is None,
        ensures
            final(self).wf(),
            final(self).core.alias_text() == old(self).core.alias_text(),
            port < 1 ==> {
                &&& result == Ok::<InputValueType, String>(old(self).core@[port as int].value_type)
                &&& final(self).core@ == old(self).core@.update(
                    port as int,
                    old(self).core@[port as int].listened_to(),
                )
            },
            port >= 1 ==> {
                &&& outcome(result) == Err::<InputValueType, Seq<char>>("DS18 has only one port"@)
                &&& final(self).core == old(self).core
            },
    {
        if port >= 1 {
            return Err("DS18 has only one port".to_owned());
        }
        self.core.get_input_port(port)
    }
}

proof fn lemma_decimal_is_digits(n: nat)
    ensures
        is_digits(decimal(n)),
        digits_value(decimal(n)) == n,
    decreases n,
{
    let d = decimal(n);
    if n < 10 {
        assert(d.drop_last() =~= Seq::<char>::empty());
        assert(digits_value(d.drop_last()) == 0);
    } else {
        lemma_decimal_is_digits(n / 10);
        assert(d.drop_last() =~= decimal(n / 10));
    }
}

/// The text that the kernel writes for a number of millidegrees.
pub open spec fn kernel_text(n: i64) -> Seq<char> {
    if n >= 0 {
        decimal(n as nat).push('\n')
    } else {
        (seq!['-'] + decimal((-n) as nat)).push('\n')
    }
}

/// What the kernel writes for a number of millidegrees is read as that number.
pub proof fn law_kernel_text_reads_back(n: i64)
    ensures
        millidegrees_of(kernel_text(n)) == Ok::<i64, Seq<char>>(n),
{
    let magnitude: nat = if n >= 0 {
        n as nat
    } else {
        (-n) as nat
    };
    let digits = decimal(magnitude);
    lemma_decimal_is_digits(magnitude);
    let number = if n >= 0 {
        digits
    } else {
        seq!['-'] + digits
    };
    let text = kernel_text(n);
    assert(text == number.push('\n'));
    assert(number.len() > 0);
    assert('0' <= digits[0] <= '9');
    assert(!is_white_space(number[0]));
    assert(text.first() == number[0]);
    assert(trimmed_start(text) == text);
    assert(digits.last() == digits[digits.len() - 1]);
    assert(number.last() == digits.last());
    assert(!is_white_space(number.last()));
    assert(text.drop_last() =~= number);
    assert(text.last() == '\n');
    assert(trimmed_end(number) == number);
    assert(trimmed_end(text) == trimmed_end(text.drop_last()));
    if n < 0 {
        assert(number[0] == '-');
        assert(!is_digits(number));
        assert(number.drop_first() =~= digits);
    }
}

/// The file of a sensor yields the number that the kernel wrote, and an error if it holds no text.
pub proof fn law_file_reads_back(n: i64, bytes: Seq<u8>)
    ensures
        millidegrees(encode_utf8(kernel_text(n))) == Ok::<i64, Seq<char>>(n),
        !valid_utf8(bytes) ==> millidegrees(bytes) is Err,
{
    encode_utf8_valid_utf8(kernel_text(n));
    encode_utf8_decode_utf8(kernel_text(n));
    law_kernel_text_reads_back(n);
}

/// A text with anything but a digit behind its first character is no number. Whitespace around it
/// does not count.
pub proof fn law_other_text_is_no_number(text: Seq<char>, i: int)
    requires
        0 < i < trimmed(text).len(),
        !('0' <= trimmed(text)[i] <= '9'),
    ensures
        millidegrees_of(text) is Err,
{
    let number = trimmed(text);
    assert(!is_digits(number));
    assert(number.drop_first()[i - 1] == number[i]);
    assert(!is_digits(number.drop_first()));
}

} // verus!
