//! Temperature and humidity measurements from a DHT22.
//!
//! The sensor sends five bytes: two for the humidity, two for the temperature and a checksum. A
//! bit is a low pulse and a high pulse behind it, and is set if the high pulse is a long one.
use vstd::arithmetic::power2::{lemma2_to64, lemma_pow2_strictly_increases, lemma_pow2_unfold, pow2};
use vstd::prelude::*;

use crate::text::concatenated;
use crate::value::{nanos_between, Quantity};

verus! {

/// The highest number of samples that a pulse may last.
pub const MAX_COUNT: usize = 32000;

/// The number of pairs of a low and a high pulse: one for the start, one for each bit.
pub const DHT_PULSES: usize = 41;

/// A high pulse that lasts longer than this many microseconds is a set bit.
pub const HIGH_THRESHOLD_MICROS: u16 = 51;

/// A reading takes about 5 milliseconds. A sensor that did not finish after this many
/// milliseconds is given up on.
pub const TIMEOUT_MILLIS: u64 = 10;

/// A reading of the sensor.
#[derive(Debug, Clone, Copy, PartialEq, Eq, Structural)]
pub struct Reading {
    /// Whether the temperature is below zero.
    pub temperature_negative: bool,
    /// The temperature in tenths of a degree Celsius, without its sign.
    pub temperature_tenths: u16,
    /// The relative humidity in tenths of a percent.
    pub humidity_tenths: u16,
}

/// Errors that may occur when reading the sensor.
#[derive(Debug)]
pub enum ReadingError {
    /// Occurs if a timeout occured reading the pin.
    Timeout,
    /// Occurs if the checksum value from the DHT22 is incorrect.
    Checksum,
    /// Occurs if there is a problem accessing the pin itself.
    Gpio(String),
}

impl Reading {
    /// The temperature in degrees Celsius.
    pub open spec fn temperature_quantity(self) -> Quantity {
        Quantity::Tenths {
            negative: self.temperature_negative,
            magnitude: self.temperature_tenths,
        }
    }

    /// The relative humidity in percent.
    pub open spec fn humidity_quantity(self) -> Quantity {
        Quantity::Tenths { negative: false, magnitude: self.humidity_tenths }
    }

    /// Whether the humidity lies above 100 percent.
    pub open spec fn suspicious(self) -> bool {
        self.humidity_tenths > 1000
    }

    /// The temperature in degrees Celsius.
    pub fn temperature(&self) -> (quantity: Quantity)
        ensures
            quantity == self.temperature_quantity(),
    {
        Quantity::Tenths {
            negative: self.temperature_negative,
            magnitude: self.temperature_tenths,
        }
    }

    /// The relative humidity in percent.
    pub fn humidity(&self) -> (quantity: Quantity)
        ensures
            quantity == self.humidity_quantity(),
    {
        Quantity::Tenths { negative: false, magnitude: self.humidity_tenths }
    }

    /// Whether the sensor claims a humidity above 100 percent.
    pub fn is_suspicious(&self) -> (suspicious: bool)
        ensures
            suspicious == self.suspicious(),
    {
        self.humidity_tenths > 1000
    }
}

impl ReadingError {
    /// The text that reports the error.
    pub open spec fn text_view(self) -> Seq<char> {
        match self {
            ReadingError::Timeout => "Timeout"@,
            ReadingError::Checksum => "Checksum"@,
            ReadingError::Gpio(message) => "Gpio("@ + message@ + ")"@,
        }
    }

    /// The text that reports the error.
    pub fn text(&self) -> (text: String)
        ensures
            text@ == self.text_view(),
    {
        match self {
            ReadingError::Timeout => "Timeout".to_owned(),
            ReadingError::Checksum => "Checksum".to_owned(),
            ReadingError::Gpio(message) => {
                let opened = concatenated("Gpio(", message.as_str());
                concatenated(opened.as_str(), ")")
            },
        }
    }
}

/// The number whose binary digits, highest first, are given.
pub open spec fn bits_value(bits: Seq<bool>) -> nat
    decreases bits.len(),
{
    if bits.len() == 0 {
        0
    } else {
        2 * bits_value(bits.drop_last()) + if bits.last() {
            1nat
        } else {
            0nat
        }
    }
}

proof fn lemma_bits_value_bound(bits: Seq<bool>)
    ensures
        bits_value(bits) < pow2(bits.len()),
    decreases bits.len(),
{
    lemma2_to64();
    if bits.len() > 0 {
        lemma_bits_value_bound(bits.drop_last());
        lemma_pow2_unfold(bits.len());
    }
}

/// A byte gets one more binary digit.
fn push_bit(byte: u8, bit: bool, Ghost(bits): Ghost<Seq<bool>>) -> (pushed: u8)
    requires
        bits.len() < 8,
        byte == bits_value(bits),
    ensures
        pushed == bits_value(bits.push(bit)),
{
    let digit: u8 = if bit {
        1
    } else {
        0
    };
    proof {
        lemma_bits_value_bound(bits);
        lemma2_to64();
        if bits.len() < 7 {
            lemma_pow2_strictly_increases(bits.len(), 7);
        }
        assert(bits.push(bit).drop_last() =~= bits);
        assert(byte < 128 && digit <= 1 ==> ((byte << 1) | digit) == 2 * byte + digit)
            by (bit_vector);
    }
    (byte << 1) | digit
}

/// The sum of the first `n` low pulses of the data.
pub open spec fn low_total(arr: Seq<usize>, n: nat) -> nat
    decreases n,
{
    if n == 0 {
        0
    } else {
        low_total(arr, (n - 1) as nat) + arr[2 * n as int] as nat
    }
}

/// The average length of a low pulse of the data. A bit whose high pulse lasts at least as long
/// is set.
pub open spec fn average_low(arr: Seq<usize>) -> nat {
    low_total(arr, 40) / 40
}

/// The eight bits of the data byte with the given number.
pub open spec fn counted_bits(arr: Seq<usize>, byte: int) -> Seq<bool> {
    Seq::new(8, |b: int| arr[3 + 16 * byte + 2 * b] >= average_low(arr))
}

/// The data byte with the given number.
pub open spec fn counted_byte(arr: Seq<usize>, byte: int) -> u8 {
    bits_value(counted_bits(arr, byte)) as u8
}

/// The checksum of the four bytes of a reading: their sum, without what exceeds a byte.
pub open spec fn checksum_of(b0: u8, b1: u8, b2: u8, b3: u8) -> u8 {
    ((b0 + b1 + b2 + b3) % 256) as u8
}

/// The reading that four bytes stand for.
pub open spec fn reading_of(b0: u8, b1: u8, b2: u8, b3: u8) -> Reading {
    Reading {
        temperature_negative: b2 >= 128,
        temperature_tenths: ((b2 % 128) * 256 + b3) as u16,
        humidity_tenths: (b0 * 256 + b1) as u16,
    }
}

/// The reading of five bytes, if the last one is the checksum of the others.
pub open spec fn checked_reading(
    b0: u8,
    b1: u8,
    b2: u8,
    b3: u8,
    checksum: u8,
) -> Result<Reading, ReadingError> {
    if checksum == checksum_of(b0, b1, b2, b3) {
        Ok(reading_of(b0, b1, b2, b3))
    } else {
        Err(ReadingError::Checksum)
    }
}

/// Computes the checksum of the four bytes of a reading.
pub fn compute_checksum(b0: u8, b1: u8, b2: u8, b3: u8) -> (checksum: u8)
    ensures
        checksum == checksum_of(b0, b1, b2, b3),
        (b0 + b1 + b2 + b3 - checksum) % 256 == 0,
{
    b0.wrapping_add(b1).wrapping_add(b2).wrapping_add(b3)
}

/// Decodes the four bytes of a reading.
pub fn decode_reading(b0: u8, b1: u8, b2: u8, b3: u8) -> (reading: Reading)
    ensures
        reading == reading_of(b0, b1, b2, b3),
        reading.humidity_tenths == 256 * b0 + b1,
        reading.temperature_negative <==> b2 >= 128,
        b2 < 128 ==> reading.temperature_tenths == 256 * b2 + b3,
        b2 >= 128 ==> reading.temperature_tenths == 256 * (b2 - 128) + b3,
{
    assert((b2 & 0x7f) == b2 % 128) by (bit_vector);
    assert(((b2 & 0x80) != 0) == (b2 >= 128)) by (bit_vector);
    Reading {
        temperature_negative: (b2 & 0x80) != 0,
        temperature_tenths: (b2 & 0x7f) as u16 * 256 + b3 as u16,
        humidity_tenths: b0 as u16 * 256 + b1 as u16,
    }
}

/// Decodes five bytes and checks their checksum.
fn decode_checked(b0: u8, b1: u8, b2: u8, b3: u8, expected: u8) -> (result: Result<
    Reading,
    ReadingError,
>)
    ensures
        result == checked_reading(b0, b1, b2, b3, expected),
{
    let checksum: u8 = compute_checksum(b0, b1, b2, b3);
    if expected != checksum {
        return Err(ReadingError::Checksum);
    }
    Ok(decode_reading(b0, b1, b2, b3))
}

fn count_byte(arr: &[usize; 82], threshold: usize, byte: usize) -> (value: u8)
    requires
        byte < 5,
        threshold == average_low(arr@),
    ensures
        value == counted_byte(arr@, byte as int),
{
    let mut value: u8 = 0;
    let mut b: usize = 0;
    let ghost bits = counted_bits(arr@, byte as int);
    assert(bits.take(0) =~= Seq::<bool>::empty());
    while b < 8
        invariant
            byte < 5,
            b <= 8,
            bits == counted_bits(arr@, byte as int),
            threshold == average_low(arr@),
            value == bits_value(bits.take(b as int)),
        decreases 8 - b,
    {
        let set: bool = arr[3 + 16 * byte + 2 * b] >= threshold;
        value = push_bit(value, set, Ghost(bits.take(b as int)));
        assert(bits.take(b as int).push(set) =~= bits.take(b + 1));
        b += 1;
    }
    assert(bits.take(8) =~= bits);
    value
}

/// Decodes the pulses of a reading, measured as numbers of samples. The first two pulses are the
/// start signal.
pub fn decode(arr: &[usize; 82]) -> (result: Result<Reading, ReadingError>)
    requires
        low_total(arr@, 40) <= usize::MAX,
    ensures
        result == checked_reading(
            counted_byte(arr@, 0),
            counted_byte(arr@, 1),
            counted_byte(arr@, 2),
            counted_byte(arr@, 3),
            counted_byte(arr@, 4),
        ),
{
    let mut threshold: usize = 0;
    let mut n: usize = 0;
    while n < DHT_PULSES - 1
        invariant
            n <= 40,
            threshold == low_total(arr@, n as nat),
            low_total(arr@, 40) <= usize::MAX,
        decreases 40 - n,
    {
        proof {
            lemma_low_total_grows(arr@, (n + 1) as nat, 40);
        }
        n += 1;
        threshold += arr[2 * n];
    }
    threshold /= DHT_PULSES - 1;
    decode_checked(
        count_byte(arr, threshold, 0),
        count_byte(arr, threshold, 1),
        count_byte(arr, threshold, 2),
        count_byte(arr, threshold, 3),
        count_byte(arr, threshold, 4),
    )
}

proof fn lemma_low_total_grows(arr: Seq<usize>, m: nat, n: nat)
    requires
        m <= n,
    ensures
        low_total(arr, m) <= low_total(arr, n),
    decreases n,
{
    if m < n {
        lemma_low_total_grows(arr, m, (n - 1) as nat);
    }
}

/// The eight bits of sixteen pulses, measured in microseconds.
pub open spec fn timed_bits(pulses: Seq<u16>) -> Seq<bool> {
    Seq::new(8, |b: int| pulses[2 * b + 1] > HIGH_THRESHOLD_MICROS)
}

/// The byte that the pulses from `first` on stand for.
pub open spec fn timed_byte(pulses: Seq<u16>, first: int) -> u8 {
    bits_value(timed_bits(pulses.subrange(first, first + 16))) as u8
}

/// Decodes sixteen pulses, measured in microseconds, to a byte.
pub fn pulses_to_binary(pulses: &[u16]) -> (byte: u8)
    requires
        pulses@.len() == 16,
    ensures
        byte == bits_value(timed_bits(pulses@)),
{
    let mut byte: u8 = 0;
    let mut b: usize = 0;
    let ghost bits = timed_bits(pulses@);
    assert(bits.take(0) =~= Seq::<bool>::empty());
    while b < 8
        invariant
            pulses@.len() == 16,
            b <= 8,
            bits == timed_bits(pulses@),
            byte == bits_value(bits.take(b as int)),
        decreases 8 - b,
    {
        let set: bool = pulses[2 * b + 1] > HIGH_THRESHOLD_MICROS;
        byte = push_bit(byte, set, Ghost(bits.take(b as int)));
        assert(bits.take(b as int).push(set) =~= bits.take(b + 1));
        b += 1;
    }
    assert(bits.take(8) =~= bits);
    byte
}

/// Decodes the pulses of a reading, measured in microseconds, without the start signal.
pub fn decode_pulses(pulses: &[u16]) -> (result: Result<Reading, ReadingError>)
    requires
        pulses@.len() >= 80,
    ensures
        result == checked_reading(
            timed_byte(pulses@, 0),
            timed_byte(pulses@, 16),
            timed_byte(pulses@, 32),
            timed_byte(pulses@, 48),
            timed_byte(pulses@, 64),
        ),
{
    decode_checked(
        pulses_to_binary(&pulses[0..16]),
        pulses_to_binary(&pulses[16..32]),
        pulses_to_binary(&pulses[32..48]),
        pulses_to_binary(&pulses[48..64]),
        pulses_to_binary(&pulses[64..80]),
    )
}

/// The length of a pulse in microseconds, between two transitions in nanoseconds. What exceeds
/// sixteen bits is cut off.
pub open spec fn pulse_micros(start: u64, end: u64) -> u16 {
    ((nanos_between(start, end) / 1000) % 65536) as u16
}

/// The last 81 pulses between the given transitions.
pub open spec fn raw_pulses(transitions: Seq<u64>) -> Seq<u16> {
    Seq::new(
        81,
        |k: int|
            pulse_micros(
                transitions[transitions.len() - 82 + k],
                transitions[transitions.len() - 81 + k],
            ),
    )
}

/// Whether a pulse is so long that it must be several pulses in one.
pub open spec fn overlong(pulse: u16) -> bool {
    pulse > 120
}

/// Whether `index` is the first overlong pulse behind the start signal.
pub open spec fn is_first_overlong(pulses: Seq<u16>, index: int) -> bool {
    &&& 2 <= index < pulses.len()
    &&& overlong(pulses[index])
    &&& forall|j: int| 2 <= j < index ==> !overlong(#[trigger] pulses[j])
}

/// The pulses with the pulse at `index` replaced by the low, high and low pulse that it probably
/// was. The start signal is dropped, such that the number of pulses stays the same.
pub open spec fn repaired(pulses: Seq<u16>, index: int) -> Seq<u16> {
    let missed: u16 = if pulses[index] < 160 {
        27
    } else {
        70
    };
    (pulses.take(index) + seq![50u16, missed, 50u16] + pulses.skip(index + 1)).skip(2)
}

/// The pulses of a recording. A recording of 82 transitions lacks two of them, which are made up
/// for at the first overlong pulse, if there is one.
pub open spec fn are_pulses_of(pulses: Seq<u16>, transitions: Seq<u64>) -> bool {
    let raw = raw_pulses(transitions);
    if transitions.len() == 82 {
        ||| exists|index: int| is_first_overlong(raw, index) && pulses == repaired(raw, index)
        ||| (forall|j: int| 2 <= j < 81 ==> !overlong(#[trigger] raw[j])) && pulses == raw
    } else {
        pulses == raw
    }
}

/// Computes the pulses of a recording of transitions, given in nanoseconds. At least 82
/// transitions are needed.
pub fn pulses_from_transitions(transitions: &Vec<u64>) -> (result: Result<Vec<u16>, ReadingError>)
    ensures
        transitions@.len() < 82 ==> (result matches Err(e) && e is Timeout),
        transitions@.len() >= 82 ==> (result matches Ok(pulses) && are_pulses_of(
            pulses@,
            transitions@,
        ) && pulses@.len() == 81),
{
    let len: usize = transitions.len();
    if len < 82 {
        return Err(ReadingError::Timeout);
    }
    let ghost raw = raw_pulses(transitions@);
    let mut pulses: Vec<u16> = Vec::new();
    let mut i: usize = len - 81;
    while i < len
        invariant
            len == transitions@.len(),
            82 <= len,
            len - 81 <= i <= len,
            raw == raw_pulses(transitions@),
            pulses@ == raw.take(i - (len - 81)),
        decreases len - i,
    {
        let start: u64 = transitions[i - 1];
        let end: u64 = transitions[i];
        let micros: u64 = if end >= start {
            (end - start) / 1000
        } else {
            0
        };
        assert((micros as u16) == micros % 65536) by (bit_vector);
        pulses.push(#[verifier::truncate] (micros as u16));
        assert(raw.take(i - (len - 81)).push(raw[i - (len - 81)]) =~= raw.take(
            i + 1 - (len - 81),
        ));
        i += 1;
    }
    assert(raw.take(81) =~= raw);
    if len == 82 {
        let mut index: usize = 2;
        while index < pulses.len() && pulses[index] <= 120
            invariant
                pulses@ == raw,
                raw.len() == 81,
                2 <= index <= 81,
                forall|j: int| 2 <= j < index ==> !overlong(#[trigger] raw[j]),
            decreases 81 - index,
        {
            index += 1;
        }
        if index < pulses.len() {
            let missed: u16 = if pulses[index] < 160 {
                27
            } else {
                70
            };
            pulses[index] = 50;
            pulses.insert(index + 1, missed);
            pulses.insert(index + 2, 50);
            let rest: Vec<u16> = pulses.split_off(2);
            proof {
                assert(is_first_overlong(raw, index as int));
                assert(rest@ =~= repaired(raw, index as int));
            }
            return Ok(rest);
        }
    }
    Ok(pulses)
}

/// What the recorder of transitions needs next.
#[derive(Debug, Clone, Copy, PartialEq, Eq, Structural)]
pub enum RecorderStep {
    /// The next sample of the pin.
    Sample,
    /// The time: the recording is over if it took too long. Otherwise the next sample.
    SampleUnlessTimedOut,
    /// Nothing, all transitions were recorded.
    Finished,
}

/// Records the transitions of the pin.
pub struct TransitionRecorder {
    last_high: bool,
    transitions: Vec<u64>,
    iterations: u64,
}

impl TransitionRecorder {
    /// The level of the last sample.
    pub closed spec fn level(&self) -> bool {
        self.last_high
    }

    /// The transitions that were recorded.
    pub closed spec fn recorded(&self) -> Seq<u64> {
        self.transitions@
    }

    /// The number of samples that were taken.
    pub closed spec fn samples(&self) -> u64 {
        self.iterations
    }

    /// Starts a recording. The pin is high before the sensor answers.
    pub fn new() -> (recorder: Self)
        ensures
            recorder.level(),
            recorder.recorded() == Seq::<u64>::empty(),
            recorder.samples() == 0,
    {
        TransitionRecorder { last_high: true, transitions: Vec::new(), iterations: 0 }
    }

    /// Whether a sample is a transition. The time is needed for those only.
    pub fn is_transition(&self, high: bool) -> (transition: bool)
        ensures
            transition == (high != self.level()),
    {
        high != self.last_high
    }

    /// Processes a sample of the pin, and the time in nanoseconds if the sample is a transition.
    pub fn sample(&mut self, high: bool, now: u64) -> (step: RecorderStep)
        requires
            old(self).samples() < u64::MAX,
        ensures
            final(self).level() == high,
            final(self).recorded() == (if high != old(self).level() {
                old(self).recorded().push(now)
            } else {
                old(self).recorded()
            }),
            final(self).samples() == old(self).samples() + 1,
            step == (if final(self).recorded().len() == 84 {
                RecorderStep::Finished
            } else if old(self).samples() % 1000 == 0 {
                RecorderStep::SampleUnlessTimedOut
            } else {
                RecorderStep::Sample
            }),
    {
        if high != self.last_high {
            self.last_high = high;
            self.transitions.push(now);
        }
        let iteration: u64 = self.iterations;
        self.iterations = iteration + 1;
        if self.transitions.len() == 84 {
            RecorderStep::Finished
        } else if iteration % 1000 == 0 {
            RecorderStep::SampleUnlessTimedOut
        } else {
            RecorderStep::Sample
        }
    }

    /// Computes the pulses of the recording.
    pub fn pulses(&self) -> (result: Result<Vec<u16>, ReadingError>)
        ensures
            self.recorded().len() < 82 ==> (result matches Err(e) && e is Timeout),
            self.recorded().len() >= 82 ==> (result matches Ok(pulses) && are_pulses_of(
                pulses@,
                self.recorded(),
            ) && pulses@.len() == 81),
    {
        pulses_from_transitions(&self.transitions)
    }
}

/// What the counter of samples needs next.
#[derive(Debug, Clone, Copy, PartialEq, Eq, Structural)]
pub enum CounterStep {
    /// The next sample of the pin.
    Sample,
    /// Nothing, a pulse lasted too long.
    TimedOut,
    /// Nothing, all pulses were counted.
    Finished,
}

/// Counts for how many samples each pulse lasts.
pub struct PulseCounter {
    /// How long the pin stayed high before the first pulse.
    initial: usize,
    /// How long each pulse lasted.
    pulse_counts: [usize; 82],
    /// The number of pulses that have begun.
    begun: usize,
}

/// The state of a pulse counter.
pub struct CounterView {
    pub initial: usize,
    pub counts: Seq<usize>,
    pub begun: int,
}

impl CounterView {
    /// The level of the pulse that is being counted. Before the first pulse the pin is high, and
    /// every second pulse is high.
    pub open spec fn counts_high(self) -> bool {
        self.begun % 2 == 0
    }

    /// The length of the current pulse so far.
    pub open spec fn current(self) -> usize {
        if self.begun == 0 {
            self.initial
        } else {
            self.counts[self.begun - 1]
        }
    }

    /// The counter after one more sample of the current pulse.
    pub open spec fn counted(self) -> CounterView {
        let next = (self.current() + 1) as usize;
        if self.begun == 0 {
            CounterView { initial: next, ..self }
        } else {
            CounterView { counts: self.counts.update(self.begun - 1, next), ..self }
        }
    }

    /// No pulse lasted too long so far, and not all of them are counted.
    pub open spec fn running(self) -> bool {
        &&& self.counts.len() == 82
        &&& 0 <= self.begun <= 82
        &&& self.initial <= MAX_COUNT
        &&& forall|i: int| 0 <= i < 82 ==> #[trigger] self.counts[i] <= MAX_COUNT
    }

    /// The pin stayed high, or a pulse lasted, for too long.
    pub open spec fn timed_out(self) -> bool {
        ||| self.initial > MAX_COUNT
        ||| exists|i: int| 0 <= i < 82 && #[trigger] self.counts[i] > MAX_COUNT
    }
}

impl View for PulseCounter {
    type V = CounterView;

    closed spec fn view(&self) -> CounterView {
        CounterView {
            initial: self.initial,
            counts: self.pulse_counts@,
            begun: self.begun as int,
        }
    }
}

impl PulseCounter {
    /// Starts to count.
    pub fn new() -> (counter: Self)
        ensures
            counter@ == (CounterView {
                initial: 0,
                counts: Seq::new(82, |i: int| 0usize),
                begun: 0,
            }),
            counter@.running(),
    {
        let counter = PulseCounter { initial: 0, pulse_counts: [0; 82], begun: 0 };
        assert(counter@.counts =~= Seq::new(82, |i: int| 0usize));
        counter
    }

    /// Processes a sample of the pin.
    pub fn sample(&mut self, high: bool) -> (step: CounterStep)
        requires
            old(self)@.running(),
        ensures
            high == old(self)@.counts_high() ==> {
                &&& final(self)@ == old(self)@.counted()
                &&& step == (if old(self)@.current() == MAX_COUNT {
                    CounterStep::TimedOut
                } else {
                    CounterStep::Sample
                })
            },
            high != old(self)@.counts_high() ==> {
                &&& final(self)@ == (CounterView { begun: old(self)@.begun + 1, ..old(self)@ })
                &&& step == (if old(self)@.begun == 82 {
                    CounterStep::Finished
                } else {
                    CounterStep::Sample
                })
            },
            step is Sample ==> final(self)@.running(),
    {
        let counts_high: bool = self.begun % 2 == 0;
        if high != counts_high {
            self.begun += 1;
            return if self.begun == 83 {
                CounterStep::Finished
            } else {
                CounterStep::Sample
            };
        }
        let count: usize = if self.begun == 0 {
            self.initial += 1;
            self.initial
        } else {
            let index: usize = self.begun - 1;
            let next: usize = self.pulse_counts[index] + 1;
            self.pulse_counts[index] = next;
            next
        };
        if count > MAX_COUNT {
            CounterStep::TimedOut
        } else {
            CounterStep::Sample
        }
    }

    /// Decodes the counted pulses, unless one of them lasted too long.
    pub fn reading(&self) -> (result: Result<Reading, ReadingError>)
        ensures
            self@.timed_out() ==> result == Err::<Reading, ReadingError>(ReadingError::Timeout),
            !self@.timed_out() ==> result == checked_reading(
                counted_byte(self@.counts, 0),
                counted_byte(self@.counts, 1),
                counted_byte(self@.counts, 2),
                counted_byte(self@.counts, 3),
                counted_byte(self@.counts, 4),
            ),
    {
        if self.initial > MAX_COUNT {
            return Err(ReadingError::Timeout);
        }
        let mut i: usize = 0;
        while i < 82
            invariant
                i <= 82,
                self.initial <= MAX_COUNT,
                forall|j: int| 0 <= j < i ==> #[trigger] self@.counts[j] <= MAX_COUNT,
            decreases 82 - i,
        {
            if self.pulse_counts[i] > MAX_COUNT {
                assert(self@.counts[i as int] > MAX_COUNT);
                return Err(ReadingError::Timeout);
            }
            i += 1;
        }
        proof {
            lemma_low_total_bound(self.pulse_counts@, 40);
        }
        decode(&self.pulse_counts)
    }
}

proof fn lemma_low_total_bound(arr: Seq<usize>, n: nat)
    requires
        arr.len() == 82,
        n <= 40,
        forall|i: int| 0 <= i < 82 ==> #[trigger] arr[i] <= MAX_COUNT,
    ensures
        low_total(arr, n) <= n * 32000,
    decreases n,
{
    if n > 0 {
        lemma_low_total_bound(arr, (n - 1) as nat);
        assert(arr[2 * n as int] <= MAX_COUNT);
    }
}

/// The binary digits of a byte, highest first.
pub open spec fn byte_bits(byte: u8) -> Seq<bool> {
    seq![
        byte / 128 % 2 == 1,
        byte / 64 % 2 == 1,
        byte / 32 % 2 == 1,
        byte / 16 % 2 == 1,
        byte / 8 % 2 == 1,
        byte / 4 % 2 == 1,
        byte / 2 % 2 == 1,
        byte % 2 == 1,
    ]
}

/// A byte is the number that its binary digits stand for.
pub proof fn law_byte_is_its_bits(byte: u8)
    ensures
        bits_value(byte_bits(byte)) == byte,
{
    let bits = byte_bits(byte);
    reveal_with_fuel(bits_value, 9);
    assert(bits.drop_last() =~= bits.take(7));
    assert(bits.take(7).drop_last() =~= bits.take(6));
    assert(bits.take(6).drop_last() =~= bits.take(5));
    assert(bits.take(5).drop_last() =~= bits.take(4));
    assert(bits.take(4).drop_last() =~= bits.take(3));
    assert(bits.take(3).drop_last() =~= bits.take(2));
    assert(bits.take(2).drop_last() =~= bits.take(1));
    assert(bits.take(1).drop_last() =~= bits.take(0));
}

/// Decoding undoes what the sensor does: pulses whose high parts are long exactly where a bit of
/// the four bytes of a reading and of their checksum is set decode to that reading.
pub proof fn law_decoding_undoes_sending(pulses: Seq<u16>, b0: u8, b1: u8, b2: u8, b3: u8)
    requires
        pulses.len() >= 80,
        timed_bits(pulses.subrange(0, 16)) == byte_bits(b0),
        timed_bits(pulses.subrange(16, 32)) == byte_bits(b1),
        timed_bits(pulses.subrange(32, 48)) == byte_bits(b2),
        timed_bits(pulses.subrange(48, 64)) == byte_bits(b3),
        timed_bits(pulses.subrange(64, 80)) == byte_bits(checksum_of(b0, b1, b2, b3)),
    ensures
        checked_reading(
            timed_byte(pulses, 0),
            timed_byte(pulses, 16),
            timed_byte(pulses, 32),
            timed_byte(pulses, 48),
            timed_byte(pulses, 64),
        ) == Ok::<Reading, ReadingError>(reading_of(b0, b1, b2, b3)),
{
    law_byte_is_its_bits(b0);
    law_byte_is_its_bits(b1);
    law_byte_is_its_bits(b2);
    law_byte_is_its_bits(b3);
    law_byte_is_its_bits(checksum_of(b0, b1, b2, b3));
}

proof fn lemma_sums_differ(good: u8, bad: u8, rest: int)
    requires
        good != bad,
        rest >= 0,
    ensures
        (good + rest) % 256 != (bad + rest) % 256,
{
    let x = good + rest;
    let y = bad + rest;
    assert(x == 256 * (x / 256) + x % 256);
    assert(y == 256 * (y / 256) + y % 256);
}

/// The checksum detects any change of a single byte.
pub proof fn law_checksum_detects_a_bad_byte(b0: u8, b1: u8, b2: u8, b3: u8, bad: u8)
    ensures
        bad != b0 ==> checksum_of(bad, b1, b2, b3) != checksum_of(b0, b1, b2, b3),
        bad != b1 ==> checksum_of(b0, bad, b2, b3) != checksum_of(b0, b1, b2, b3),
        bad != b2 ==> checksum_of(b0, b1, bad, b3) != checksum_of(b0, b1, b2, b3),
        bad != b3 ==> checksum_of(b0, b1, b2, bad) != checksum_of(b0, b1, b2, b3),
{
    if bad != b0 {
        lemma_sums_differ(b0, bad, b1 + b2 + b3);
    }
    if bad != b1 {
        lemma_sums_differ(b1, bad, b0 + b2 + b3);
    }
    if bad != b2 {
        lemma_sums_differ(b2, bad, b0 + b1 + b3);
    }
    if bad != b3 {
        lemma_sums_differ(b3, bad, b0 + b1 + b2);
    }
}

/// A pulse that swallowed its neighbours is made up for: if a low, a high and a low pulse of a
/// recording were seen as one overlong pulse, the repair yields three pulses in its place and
/// leaves all others as they were.
pub proof fn law_repair_restores_neighbours(pulses: Seq<u16>, index: int)
    requires
        pulses.len() == 81,
        is_first_overlong(pulses, index),
    ensures
        repaired(pulses, index).len() == 81,
        forall|j: int|
            2 <= j < index ==> #[trigger] repaired(pulses, index)[j - 2] == pulses[j],
        repaired(pulses, index).subrange(index - 2, index + 1) == seq![
            50u16,
            if pulses[index] < 160 {
                27u16
            } else {
                70u16
            },
            50u16,
        ],
        forall|j: int| index < j < 81 ==> #[trigger] repaired(pulses, index)[j] == pulses[j],
{
    assert(repaired(pulses, index).subrange(index - 2, index + 1) =~= seq![
        50u16,
        if pulses[index] < 160 {
            27u16
        } else {
            70u16
        },
        50u16,
    ]);
}

/// Whether the pulses from `first` on carry a byte: of each of its bits, highest first, the high
/// pulse lasts longer than 51 microseconds exactly if the bit is set.
#[verifier::opaque]
pub open spec fn carries(pulses: Seq<u16>, first: int, byte: int) -> bool {
    &&& pulses[first + 1] > 51 <==> byte / 128 % 2 == 1
    &&& pulses[first + 3] > 51 <==> byte / 64 % 2 == 1
    &&& pulses[first + 5] > 51 <==> byte / 32 % 2 == 1
    &&& pulses[first + 7] > 51 <==> byte / 16 % 2 == 1
    &&& pulses[first + 9] > 51 <==> byte / 8 % 2 == 1
    &&& pulses[first + 11] > 51 <==> byte / 4 % 2 == 1
    &&& pulses[first + 13] > 51 <==> byte / 2 % 2 == 1
    &&& pulses[first + 15] > 51 <==> byte % 2 == 1
}

proof fn lemma_carried(pulses: Seq<u16>, first: int, byte: u8)
    requires
        0 <= first,
        first + 16 <= pulses.len(),
        carries(pulses, first, byte as int),
    ensures
        timed_byte(pulses, first) == byte,
{
    reveal(carries);
    law_byte_is_its_bits(byte);
    assert(timed_bits(pulses.subrange(first, first + 16)) =~= byte_bits(byte));
}

proof fn lemma_measurement(
    humidity: u16,
    negative: bool,
    temperature: u16,
    b0: u8,
    b1: u8,
    b2: u8,
    b3: u8,
    last: u8,
)
    requires
        temperature < 32768,
        b0 == humidity / 256,
        b1 == humidity % 256,
        b2 == temperature / 256 + (if negative {
            128int
        } else {
            0
        }),
        b3 == temperature % 256,
    ensures
        if (b0 + b1 + b2 + b3 - last) % 256 == 0 {
            &&& checked_reading(b0, b1, b2, b3, last) matches Ok(reading)
            &&& reading.humidity_tenths == humidity
            &&& reading.temperature_tenths == temperature
            &&& reading.temperature_negative == negative
        } else {
            checked_reading(b0, b1, b2, b3, last) matches Err(error) && error is Checksum
        },
{
    let sum = b0 + b1 + b2 + b3;
    assert((sum - last) % 256 == 0 <==> sum % 256 == last);
}

/// A measurement arrives as it was sent: the humidity as two bytes, the higher one first, then the
/// temperature, whose highest bit is its sign, then the sum of these four bytes without what
/// exceeds a byte. With any other last byte the measurement is refused.
pub proof fn law_sent_measurement_arrives(
    pulses: Seq<u16>,
    humidity: u16,
    negative: bool,
    temperature: u16,
    last: u8,
)
    requires
        pulses.len() >= 80,
        temperature < 32768,
        carries(pulses, 0, humidity as int / 256),
        carries(pulses, 16, humidity as int % 256),
        carries(
            pulses,
            32,
            temperature as int / 256 + (if negative {
                128int
            } else {
                0
            }),
        ),
        carries(pulses, 48, temperature as int % 256),
        carries(pulses, 64, last as int),
    ensures
        ({
            let sum = humidity as int / 256 + humidity as int % 256 + temperature as int / 256 + (
            if negative {
                128int
            } else {
                0
            }) + temperature as int % 256;
            let result = checked_reading(
                timed_byte(pulses, 0),
                timed_byte(pulses, 16),
                timed_byte(pulses, 32),
                timed_byte(pulses, 48),
                timed_byte(pulses, 64),
            );
            if (sum - last) % 256 == 0 {
                &&& result matches Ok(reading)
                &&& reading.humidity_tenths == humidity
                &&& reading.temperature_tenths == temperature
                &&& reading.temperature_negative == negative
            } else {
                result matches Err(error) && error is Checksum
            }
        }),
{
    let sign: int = if negative {
        128
    } else {
        0
    };
    lemma_carried(pulses, 0, (humidity / 256) as u8);
    lemma_carried(pulses, 16, (humidity % 256) as u8);
    lemma_carried(pulses, 32, (temperature as int / 256 + sign) as u8);
    lemma_carried(pulses, 48, (temperature % 256) as u8);
    lemma_carried(pulses, 64, last);
    lemma_measurement(
        humidity,
        negative,
        temperature,
        (humidity / 256) as u8,
        (humidity % 256) as u8,
        (temperature as int / 256 + sign) as u8,
        (temperature % 256) as u8,
        last,
    );
}

/// Whether the counted pulses carry the byte with the given number: the high pulse of a bit lasts
/// at least `long` samples if the bit is set, and less than `short` ones otherwise.
#[verifier::opaque]
pub open spec fn carries_counted(
    arr: Seq<usize>,
    number: int,
    byte: int,
    short: int,
    long: int,
) -> bool {
    let first = 3 + 16 * number;
    &&& if byte / 128 % 2 == 1 { arr[first] >= long } else { arr[first] < short }
    &&& if byte / 64 % 2 == 1 { arr[first + 2] >= long } else { arr[first + 2] < short }
    &&& if byte / 32 % 2 == 1 { arr[first + 4] >= long } else { arr[first + 4] < short }
    &&& if byte / 16 % 2 == 1 { arr[first + 6] >= long } else { arr[first + 6] < short }
    &&& if byte / 8 % 2 == 1 { arr[first + 8] >= long } else { arr[first + 8] < short }
    &&& if byte / 4 % 2 == 1 { arr[first + 10] >= long } else { arr[first + 10] < short }
    &&& if byte / 2 % 2 == 1 { arr[first + 12] >= long } else { arr[first + 12] < short }
    &&& if byte % 2 == 1 { arr[first + 14] >= long } else { arr[first + 14] < short }
}

proof fn lemma_average_between(arr: Seq<usize>, n: nat, short: int, long: int)
    requires
        n <= 40,
        forall|i: int| 1 <= i <= 40 ==> short <= #[trigger] arr[2 * i] <= long,
    ensures
        n * short <= low_total(arr, n) <= n * long,
    decreases n,
{
    if n > 0 {
        let i = n as int;
        let m = (n - 1) as nat;
        lemma_average_between(arr, m, short, long);
        assert(short <= arr[2 * i] <= long);
        assert(n * short == m * short + short) by (nonlinear_arith)
            requires
                n == m + 1,
        ;
        assert(n * long == m * long + long) by (nonlinear_arith)
            requires
                n == m + 1,
        ;
    } else {
        assert(n * short == 0 && n * long == 0) by (nonlinear_arith)
            requires
                n == 0,
        ;
    }
}

proof fn lemma_carried_counted(arr: Seq<usize>, number: int, byte: u8, short: int, long: int)
    requires
        arr.len() == 82,
        0 <= number < 5,
        short <= average_low(arr) <= long,
        carries_counted(arr, number, byte as int, short, long),
    ensures
        counted_byte(arr, number) == byte,
{
    reveal(carries_counted);
    law_byte_is_its_bits(byte);
    assert(counted_bits(arr, number) =~= byte_bits(byte));
}

/// A measurement arrives as it was sent also if pulses are counted in samples: wherever all low
/// pulses of the data last between `short` and `long` samples, the high pulses of bits that are not
/// set last less than `short`, and those of bits that are set at least `long`.
pub proof fn law_counted_measurement_arrives(
    arr: Seq<usize>,
    humidity: u16,
    negative: bool,
    temperature: u16,
    last: u8,
    short: int,
    long: int,
)
    requires
        arr.len() == 82,
        temperature < 32768,
        forall|i: int| 1 <= i <= 40 ==> short <= #[trigger] arr[2 * i] <= long,
        carries_counted(arr, 0, humidity as int / 256, short, long),
        carries_counted(arr, 1, humidity as int % 256, short, long),
        carries_counted(
            arr,
            2,
            temperature as int / 256 + (if negative {
                128int
            } else {
                0
            }),
            short,
            long,
        ),
        carries_counted(arr, 3, temperature as int % 256, short, long),
        carries_counted(arr, 4, last as int, short, long),
    ensures
        ({
            let sum = humidity as int / 256 + humidity as int % 256 + temperature as int / 256 + (
            if negative {
                128int
            } else {
                0
            }) + temperature as int % 256;
            let result = checked_reading(
                counted_byte(arr, 0),
                counted_byte(arr, 1),
                counted_byte(arr, 2),
                counted_byte(arr, 3),
                counted_byte(arr, 4),
            );
            if (sum - last) % 256 == 0 {
                &&& result matches Ok(reading)
                &&& reading.humidity_tenths == humidity
                &&& reading.temperature_tenths == temperature
                &&& reading.temperature_negative == negative
            } else {
                result matches Err(error) && error is Checksum
            }
        }),
{
    let sign: int = if negative {
        128
    } else {
        0
    };
    lemma_average_between(arr, 40, short, long);
    lemma_carried_counted(arr, 0, (humidity / 256) as u8, short, long);
    lemma_carried_counted(arr, 1, (humidity % 256) as u8, short, long);
    lemma_carried_counted(arr, 2, (temperature as int / 256 + sign) as u8, short, long);
    lemma_carried_counted(arr, 3, (temperature % 256) as u8, short, long);
    lemma_carried_counted(arr, 4, last, short, long);
    lemma_measurement(
        humidity,
        negative,
        temperature,
        (humidity / 256) as u8,
        (humidity % 256) as u8,
        (temperature as int / 256 + sign) as u8,
        (temperature % 256) as u8,
        last,
    );
}

/// The last 81 pulses of a recording are the times between its transitions in whole microseconds,
/// as long as these fit into sixteen bits.
pub proof fn law_pulses_are_time_differences(transitions: Seq<u64>, k: int)
    requires
        transitions.len() >= 82,
        0 <= k < 81,
        transitions[transitions.len() - 82 + k] <= transitions[transitions.len() - 81 + k],
        transitions[transitions.len() - 81 + k] - transitions[transitions.len() - 82 + k]
            < 65_536_000,
    ensures
        raw_pulses(transitions).len() == 81,
        ({
            let start = transitions[transitions.len() - 82 + k];
            let end = transitions[transitions.len() - 81 + k];
            let micros = raw_pulses(transitions)[k];
            micros * 1000 <= end - start < (micros + 1) * 1000
        }),
{
}

/// The pulses of a recording with enough transitions are kept as they were measured. If two
/// transitions are missing, the first pulse behind the start signal of more than 120 microseconds
/// is parted into a low pulse of 50 microseconds, a high one of 27 or, if it was at least 160
/// microseconds long, 70, and a low one of 50, and the start signal is left out.
pub proof fn law_missed_pulse_is_made_up_for(
    pulses: Seq<u16>,
    transitions: Seq<u64>,
    index: int,
)
    requires
        are_pulses_of(pulses, transitions),
        2 <= index <= 81,
        forall|j: int| 2 <= j < index ==> #[trigger] raw_pulses(transitions)[j] <= 120,
        index < 81 ==> raw_pulses(transitions)[index] > 120,
    ensures
        ({
            let raw = raw_pulses(transitions);
            if transitions.len() == 82 && index < 81 {
                pulses == raw.subrange(2, index) + seq![
                    50u16,
                    if raw[index] >= 160 {
                        70u16
                    } else {
                        27u16
                    },
                    50u16,
                ] + raw.subrange(index + 1, 81)
            } else {
                pulses == raw
            }
        }),
{
    let raw = raw_pulses(transitions);
    if transitions.len() == 82 {
        if index < 81 {
            assert(overlong(raw[index]));
            let first = choose|i: int|
                is_first_overlong(raw, i) && pulses == repaired(raw, i);
            assert(is_first_overlong(raw, first) && pulses == repaired(raw, first));
            if first < index {
                assert(raw[first] <= 120);
            }
            if index < first {
                assert(!overlong(raw[index]));
            }
            assert(pulses =~= raw.subrange(2, index) + seq![
                50u16,
                if raw[index] >= 160 {
                    70u16
                } else {
                    27u16
                },
                50u16,
            ] + raw.subrange(index + 1, 81));
        } else {
            assert forall|i: int| !is_first_overlong(raw, i) by {
                if is_first_overlong(raw, i) {
                    assert(raw[i] <= 120);
                }
            }
        }
    }
}

/// A reading is shown in tenths, with the sign of its temperature. A humidity of more than 100
/// percent is suspicious.
pub proof fn law_reading_is_shown_in_tenths(reading: Reading)
    ensures
        reading.temperature_quantity() == (Quantity::Tenths {
            negative: reading.temperature_negative,
            magnitude: reading.temperature_tenths,
        }),
        reading.humidity_quantity() == (Quantity::Tenths {
            negative: false,
            magnitude: reading.humidity_tenths,
        }),
        reading.suspicious() <==> reading.humidity_tenths > 1000,
{
}

/// A sample of the pulse that is being counted makes it longer by one, and leaves all others alone.
/// Pulses are high and low in turn, and the pin is high before the first of them.
pub proof fn law_samples_are_counted(counter: CounterView, i: int)
    requires
        counter.running(),
        0 <= i < 82,
    ensures
        counter.begun == 0 ==> counter.counted().initial == counter.initial + 1,
        counter.begun > 0 ==> counter.counted().initial == counter.initial,
        counter.counted().counts[i] == (if i == counter.begun - 1 {
            counter.counts[i] + 1
        } else {
            counter.counts[i] as int
        }),
        counter.counted().begun == counter.begun,
        counter.begun == 0 ==> counter.counts_high(),
        (CounterView { begun: counter.begun + 1, ..counter }).counts_high()
            <==> !counter.counts_high(),
        !counter.timed_out(),
        counter.counted().timed_out() <==> counter.current() == 32000,
{
    let after = counter.counted();
    let at = counter.begun - 1;
    if counter.begun > 0 {
        assert(after.counts[at] == counter.current() + 1);
        assert(counter.counts[at] <= MAX_COUNT);
        assert forall|k: int| 0 <= k < 82 && k != at implies #[trigger] after.counts[k]
            <= MAX_COUNT by {
            assert(counter.counts[k] <= MAX_COUNT);
        }
    }
}

/// Errors of a readout are told by their names.
pub proof fn law_names_of_errors(message: String)
    ensures
        ReadingError::Timeout.text_view() == "Timeout"@,
        ReadingError::Checksum.text_view() == "Checksum"@,
        ReadingError::Gpio(message).text_view() == "Gpio("@ + message@ + ")"@,
{
}

} // verus!
