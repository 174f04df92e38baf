//! The values and events of virtual devices.
use vstd::prelude::*;

verus! {

/// The address of a virtual device.
pub type Address = u16;

/// A value that is written to an output.
pub type OutputValue = u16;

/// The lowest output value.
pub const LOW: u16 = 0;

/// The highest output value.
pub const HIGH: u16 = 65535;

/// The number of nanoseconds in a second.
pub const NANOS_PER_SECOND: u64 = 1_000_000_000;

/// A point in time, as seconds since the Unix epoch and nanoseconds behind them.
#[derive(Debug, Clone, Copy, PartialEq, Eq, Structural)]
pub struct Timestamp {
    pub seconds: i64,
    pub nanos: u32,
}

/// The nanoseconds from `earlier` to `later`, or zero if that lies in the past.
pub open spec fn nanos_between(earlier: u64, later: u64) -> u64 {
    if later >= earlier {
        (later - earlier) as u64
    } else {
        0
    }
}

/// A measured quantity, in the notation in which its sensor reports it.
#[derive(Debug, Clone, Copy, PartialEq, Eq, Structural)]
pub enum Quantity {
    /// A sign and a number of tenths.
    Tenths { negative: bool, magnitude: u16 },
    /// A number of sixteenths.
    Sixteenths(i16),
    /// A number of thousandths.
    Thousandths(i64),
    /// The bits of an IEEE 754 double-precision number.
    Double { bits: u64 },
}

/// The bits of a double-precision number without its sign.
pub open spec fn double_magnitude(bits: u64) -> u64 {
    bits % 0x8000_0000_0000_0000
}

/// Whether the bits are those of a NaN.
pub open spec fn double_is_nan(bits: u64) -> bool {
    double_magnitude(bits) > 0x7ff0_0000_0000_0000
}

/// IEEE 754 equality: a NaN equals nothing, and the two zeros equal each other.
pub open spec fn doubles_equal(a: u64, b: u64) -> bool {
    &&& !double_is_nan(a)
    &&& !double_is_nan(b)
    &&& (a == b || (double_magnitude(a) == 0 && double_magnitude(b) == 0))
}

impl Quantity {
    /// The number of tenths, with its sign.
    pub open spec fn signed_tenths(negative: bool, magnitude: u16) -> int {
        if negative {
            -(magnitude as int)
        } else {
            magnitude as int
        }
    }

    /// Whether two quantities in the same notation stand for the same number. Quantities in
    /// different notations are told apart; a sensor never changes its notation.
    pub open spec fn equals(self, other: Quantity) -> bool {
        match (self, other) {
            (
                Quantity::Tenths { negative: n1, magnitude: m1 },
                Quantity::Tenths { negative: n2, magnitude: m2 },
            ) => Self::signed_tenths(n1, m1) == Self::signed_tenths(n2, m2),
            (Quantity::Sixteenths(a), Quantity::Sixteenths(b)) => a == b,
            (Quantity::Thousandths(a), Quantity::Thousandths(b)) => a == b,
            (Quantity::Double { bits: a }, Quantity::Double { bits: b }) => doubles_equal(a, b),
            _ => false,
        }
    }

    /// Compares two quantities.
    pub fn same(self, other: Quantity) -> (same: bool)
        ensures
            same == self.equals(other),
    {
        match (self, other) {
            (
                Quantity::Tenths { negative: n1, magnitude: m1 },
                Quantity::Tenths { negative: n2, magnitude: m2 },
            ) => m1 == m2 && (n1 == n2 || m1 == 0),
            (Quantity::Sixteenths(a), Quantity::Sixteenths(b)) => a == b,
            (Quantity::Thousandths(a), Quantity::Thousandths(b)) => a == b,
            (Quantity::Double { bits: a }, Quantity::Double { bits: b }) => {
                assert(a & 0x7fff_ffff_ffff_ffff == a % 0x8000_0000_0000_0000) by (bit_vector);
                assert(b & 0x7fff_ffff_ffff_ffff == b % 0x8000_0000_0000_0000) by (bit_vector);
                let magnitude_a: u64 = a & 0x7fff_ffff_ffff_ffff;
                let magnitude_b: u64 = b & 0x7fff_ffff_ffff_ffff;
                magnitude_a <= 0x7ff0_0000_0000_0000 && magnitude_b <= 0x7ff0_0000_0000_0000 && (a
                    == b || (magnitude_a == 0 && magnitude_b == 0))
            },
            _ => false,
        }
    }
}

/// A value that was read from a device.
#[derive(Debug, Clone, Copy, PartialEq, Eq, Structural)]
pub enum InputValue {
    Binary(bool),
    /// A temperature in degrees Celsius.
    Temperature(Quantity),
    /// A relative humidity in percent.
    Humidity(Quantity),
    /// An air pressure in pascal.
    Pressure(Quantity),
    Continuous(u16),
}

impl InputValue {
    /// Whether two values are equal, as numbers.
    pub open spec fn equals(self, other: InputValue) -> bool {
        match (self, other) {
            (InputValue::Binary(a), InputValue::Binary(b)) => a == b,
            (InputValue::Temperature(a), InputValue::Temperature(b)) => a.equals(b),
            (InputValue::Humidity(a), InputValue::Humidity(b)) => a.equals(b),
            (InputValue::Pressure(a), InputValue::Pressure(b)) => a.equals(b),
            (InputValue::Continuous(a), InputValue::Continuous(b)) => a == b,
            _ => false,
        }
    }

    /// Compares two values.
    pub fn same(self, other: InputValue) -> (same: bool)
        ensures
            same == self.equals(other),
    {
        match (self, other) {
            (InputValue::Binary(a), InputValue::Binary(b)) => a == b,
            (InputValue::Temperature(a), InputValue::Temperature(b)) => a.same(b),
            (InputValue::Humidity(a), InputValue::Humidity(b)) => a.same(b),
            (InputValue::Pressure(a), InputValue::Pressure(b)) => a.same(b),
            (InputValue::Continuous(a), InputValue::Continuous(b)) => a == b,
            _ => false,
        }
    }
}

/// The kind of value that an input yields.
#[derive(Debug, Clone, Copy, PartialEq, Eq, Structural)]
pub enum InputValueType {
    Binary,
    Temperature,
    Humidity,
    Pressure,
    Continuous,
}

/// What happened to a button.
#[derive(Debug, Clone, Copy, PartialEq, Eq, Structural)]
pub enum ButtonEvent {
    /// It was pressed.
    Down,
    /// It was released.
    Up,
    /// It was pressed and released again after some time.
    Clicked { duration_nanos: u64 },
    /// It has been held for another full second.
    LongPress { seconds: u64 },
}

/// What an event reports when nothing went wrong.
#[derive(Debug, Clone, Copy, PartialEq, Eq, Structural)]
pub enum EventKind {
    /// A value was read or set.
    Update { new_value: InputValue },
    /// A button was used.
    Button(ButtonEvent),
}

/// An event of a device: what happened, or why the device could not be used.
#[derive(Debug)]
pub struct Event {
    pub timestamp: Timestamp,
    pub inner: Result<EventKind, String>,
}

/// An event together with the address of the virtual device that it belongs to.
#[derive(Debug)]
pub struct AddressedEvent {
    pub address: Address,
    pub event: Event,
}

/// An event as contracts see it.
pub struct EventView {
    pub timestamp: Timestamp,
    pub inner: Result<EventKind, Seq<char>>,
}

/// An addressed event as contracts see it.
pub struct AddressedEventView {
    pub address: Address,
    pub event: EventView,
}

impl View for AddressedEvent {
    type V = AddressedEventView;

    open spec fn view(&self) -> AddressedEventView {
        AddressedEventView { address: self.address, event: self.event@ }
    }
}

/// A result whose error is a text, as contracts see it.
pub open spec fn outcome<T>(result: Result<T, String>) -> Result<T, Seq<char>> {
    match result {
        Ok(value) => Ok(value),
        Err(message) => Err(message@),
    }
}

impl View for Event {
    type V = EventView;

    open spec fn view(&self) -> EventView {
        EventView { timestamp: self.timestamp, inner: outcome(self.inner) }
    }
}

impl Clone for Event {
    fn clone(&self) -> (copy: Event)
        ensures
            copy@ == self@,
    {
        Event {
            timestamp: self.timestamp,
            inner: match &self.inner {
                Ok(kind) => Ok(*kind),
                Err(message) => Err(message.clone()),
            },
        }
    }
}

/// Every value equals itself, except for a NaN.
pub proof fn law_values_equal_themselves(value: Quantity)
    requires
        !(value matches Quantity::Double { bits } && double_is_nan(bits)),
    ensures
        value.equals(value),
{
}

/// Numbers are compared as numbers: tenths with their signs, where both zeros are the same, and
/// doubles as IEEE 754 asks for. Values of different kinds are never equal.
pub proof fn law_values_are_compared_as_numbers(
    a: InputValue,
    b: InputValue,
    p: Quantity,
    q: Quantity,
)
    ensures
        a matches InputValue::Binary(x) ==> (a.equals(b) <==> b == InputValue::Binary(x)),
        a matches InputValue::Continuous(x) ==> (a.equals(b) <==> b == InputValue::Continuous(x)),
        InputValue::Temperature(p).equals(b) <==> (b matches InputValue::Temperature(y)
            && p.equals(y)),
        InputValue::Humidity(p).equals(b) <==> (b matches InputValue::Humidity(y) && p.equals(y)),
        InputValue::Pressure(p).equals(b) <==> (b matches InputValue::Pressure(y) && p.equals(y)),
        p matches Quantity::Tenths { negative, magnitude } ==> (p.equals(q) <==> (
        q matches Quantity::Tenths { negative: other, magnitude: same } && same == magnitude && (
        other == negative || magnitude == 0))),
        p matches Quantity::Sixteenths(x) ==> (p.equals(q) <==> q == Quantity::Sixteenths(x)),
        p matches Quantity::Thousandths(x) ==> (p.equals(q) <==> q == Quantity::Thousandths(x)),
        p matches Quantity::Double { bits: x } ==> {
            let magnitude = x % 0x8000_0000_0000_0000;
            if magnitude > 0x7ff0_0000_0000_0000 {
                !p.equals(q)
            } else if magnitude == 0 {
                p.equals(q) <==> q == (Quantity::Double { bits: 0 }) || q == (Quantity::Double {
                    bits: 0x8000_0000_0000_0000,
                })
            } else {
                p.equals(q) <==> q == (Quantity::Double { bits: x })
            }
        },
{
}

/// The time between two points in time is their difference, if the later one is later.
pub proof fn law_time_between(earlier: u64, duration: u64, later: u64)
    requires
        earlier + duration == later,
    ensures
        nanos_between(earlier, later) == duration,
        duration > 0 ==> nanos_between(later, earlier) == 0,
{
}

} // verus!
