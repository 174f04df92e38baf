//! The MCP23017 port expander, used for sixteen digital outputs.
use vstd::prelude::*;

use crate::bits::{byte_of, digit, lemma_word_mask, lemma_word_of, valued, word_of};
use crate::buttons::{join_pins, lemma_joined_digits, pin_set};
use crate::config::ValueScaling;
use crate::device_core::{all_updated, retrieved, values_written, DeviceRWCore, PortView};
use crate::text::{decimal, numbered};
use crate::value::{outcome, InputValueType, OutputValue, Timestamp};

verus! {

/// Configuration for the expander.
#[derive(Debug)]
pub struct MCP23017Config {
    pub i2c_bus: String,
    pub i2c_slave_address: u8,
}

impl MCP23017Config {
    /// Checks an address. Four bits of it are fixed, and three are free.
    pub fn slave_address(addr: u8) -> (result: Result<u8, String>)
        ensures
            outcome(result) == (if 32 <= addr <= 39 {
                Ok(addr)
            } else {
                Err("invalid address"@)
            }),
    {
        assert(((addr >> 3u8) ^ 0b0_0100u8 == 0) == (32 <= addr <= 39)) by (bit_vector);
        if (addr >> 3u8) ^ 0b0_0100 == 0 {
            Ok(addr)
        } else {
            Err("invalid address".to_owned())
        }
    }
}

/// Whether a word has one bit per value, set if the value is not zero. Bits without a value are not
/// set.
pub open spec fn shows_values(word: u16, values: Seq<OutputValue>) -> bool {
    word == word_of(|i: int| i < values.len() && values[i] != 0)
}

/// Whether all values that are not zero have a place in sixteen bits.
pub open spec fn fits_registers(values: Seq<OutputValue>) -> bool {
    forall|i: int| 16 <= i < values.len() ==> #[trigger] values[i] == 0
}

/// The values as one word, with one bit each.
pub fn register_word(values: &[OutputValue]) -> (word: u16)
    requires
        fits_registers(values@),
    ensures
        shows_values(word, values@),
{
    let mut reg: u16 = 0;
    let mut i: usize = 0;
    proof {
        assert forall|j: int| 0 <= j < 16 implies !#[trigger] pin_set(reg, j) by {}
    }
    while i < values.len()
        invariant
            fits_registers(values@),
            i <= values@.len(),
            forall|j: int| 0 <= j < 16 ==> #[trigger] pin_set(reg, j) == (j < i && values@[j] != 0),
        decreases values.len() - i,
    {
        if values[i] != 0 {
            let ghost before = reg;
            reg = reg | (1u16 << (i as u16));
            proof {
                assert forall|j: int| 0 <= j < 16 implies #[trigger] pin_set(reg, j) == (j == i
                    || pin_set(before, j)) by {
                    lemma_set_pin(before, i as u16, j as u16);
                    lemma_word_mask(before, j as u16);
                    lemma_word_mask(reg, j as u16);
                }
            }
        }
        i += 1;
    }
    proof {
        let digits = |i: int| i < values@.len() && values@[i] != 0;
        assert forall|j: int| 0 <= j < 16 implies #[trigger] digits(j) == digit(
            reg as int,
            j,
        ) by {
            assert(pin_set(reg, j) == (j < values@.len() && values@[j] != 0));
        }
        lemma_word_of(reg, digits);
    }
    reg
}

proof fn lemma_set_pin(reg: u16, i: u16, j: u16)
    by (bit_vector)
    requires
        i < 16,
        j < 16,
    ensures
        ((reg | (1u16 << i)) & (1u16 << j) != 0) == (i == j || reg & (1u16 << j) != 0),
{
}

/// The values as the two registers of the expander: first those of the upper eight values, then
/// those of the lower ones.
pub fn compute_registers(values: &[OutputValue]) -> (registers: (u8, u8))
    requires
        fits_registers(values@),
    ensures
        shows_values((registers.0 * 256 + registers.1) as u16, values@),
{
    let reg: u16 = register_word(values);
    assert((reg >> 8u16) <= 255 && ((reg >> 8u16) as u8) * 256 + ((reg & 0xff) as u8) == reg)
        by (bit_vector);
    ((reg >> 8u16) as u8, (reg & 0xff) as u8)
}

/// The word that is written to the expander.
pub fn gpio_word(values: &[OutputValue]) -> (word: u16)
    requires
        values@.len() == 16,
    ensures
        shows_values(word, values@),
{
    let (reg_a, reg_b) = compute_registers(values);
    join_pins(reg_a, reg_b)
}

/// The generic alias of a port. The first eight ports are called a, the others b.
pub fn compute_port_alias(port: u8) -> (result: Result<String, String>)
    ensures
        match result {
            Ok(alias) => port < 16 && alias@ == (if port < 8 {
                "a-"@
            } else {
                "b-"@
            }) + decimal((port % 8) as nat),
            Err(message) => port >= 16 && message@ == "MCP23017 has 16 ports only"@,
        },
{
    if port >= 16 {
        return Err("MCP23017 has 16 ports only".to_owned());
    }
    if port < 8 {
        Ok(numbered("a-", (port % 8) as u64))
    } else {
        Ok(numbered("b-", (port % 8) as u64))
    }
}

/// The expander as a device.
#[derive(Debug)]
pub struct MCP23017 {
    pub core: DeviceRWCore,
}

impl MCP23017 {
    /// The device has all its ports.
    pub open spec fn wf(&self) -> bool {
        self.core.wf() && self.core.read_core@.len() == 16
    }

    /// Creates the device. All outputs are to be written once.
    pub fn new(alias: String) -> (device: Self)
        ensures
            device.wf(),
            device.core.read_core@ == Seq::new(
                16,
                |i: int| PortView::fresh(InputValueType::Continuous),
            ),
            device.core.buffered_values@ == Seq::new(16, |i: int| 0u16),
            device.core.scalings@ == Seq::new(16, |i: int| ValueScaling::full_range()),
            device.core.dirty,
            device.core.last_error is None,
            device.core.read_core.alias_text() == alias@,
    {
        MCP23017 { core: DeviceRWCore::new_dirty(alias, 16, ValueScaling::default()) }
    }

    /// Tells whether there is something to write to the device, which triggers an update, and
    /// retrieves the error of previous updates.
    pub fn update(&mut self) -> (r: (bool, Result<(), String>))
        requires
            old(self).wf(),
        ensures
            final(self).wf(),
            r.0 == old(self).core.dirty,
            outcome(r.1) == retrieved(old(self).core.error_text()),
            final(self).core.last_error is None,
            final(self).core.read_core == old(self).core.read_core,
            final(self).core.buffered_values == old(self).core.buffered_values,
            final(self).core.scalings == old(self).core.scalings,
            final(self).core.dirty == old(self).core.dirty,
    {
        let result = self.core.update();
        (self.core.dirty, result)
    }

    /// Takes the values that are to be written, if there are any.
    pub fn begin_update(&mut self) -> (values: Option<Vec<OutputValue>>)
        requires
            old(self).wf(),
        ensures
            final(self).wf(),
            final(self).core.buffered_values == old(self).core.buffered_values,
            final(self).core.scalings == old(self).core.scalings,
            final(self).core.read_core == old(self).core.read_core,
            final(self).core.last_error == old(self).core.last_error,
            !final(self).core.dirty,
            match values {
                Some(taken) => old(self).core.dirty && taken@ == old(self).core.buffered_values@,
                None => !old(self).core.dirty,
            },
    {
        let (values, _, dirty) = self.core.take_values();
        if dirty {
            Some(values)
        } else {
            None
        }
    }

    /// Puts the outcome of a write on the ports.
    pub fn finish_update(
        &mut self,
        values: Vec<OutputValue>,
        result: Result<(), String>,
        ts: Timestamp,
    )
        requires
            old(self).wf(),
            values@.len() == 16,
        ensures
            final(self).wf(),
            final(self).core.buffered_values == old(self).core.buffered_values,
            final(self).core.scalings == old(self).core.scalings,
            final(self).core.read_core.alias_text() == old(self).core.read_core.alias_text(),
            match result {
                Ok(_) => {
                    &&& final(self).core.read_core@ == values_written(
                        old(self).core.read_core@,
                        values@,
                        ts,
                        false,
                        false,
                    )
                    &&& final(self).core.dirty == old(self).core.dirty
                    &&& final(self).core.error_text() == old(self).core.error_text()
                },
                Err(message) => {
                    &&& final(self).core.read_core@ == all_updated(
                        old(self).core.read_core@,
                        ts,
                        Err(message@),
                        true,
                        false,
                    )
                    &&& final(self).core.dirty
                    &&& final(self).core.error_text() == Some(message@)
                },
            },
    {
        match result {
            Ok(()) => self.core.finish_update(Ok(values), ts, false, false),
            Err(message) => self.core.finish_update(Err(message), ts, false, false),
        }
    }

    /// Starts to listen to an output, and sets its scaling, if one is given.
    pub fn get_output_port(&mut self, port: u8, scaling: Option<ValueScaling>) -> (result: Result<
        (),
        String,
    >)
        requires
            old(self).wf(),
            port < 16 ==> old(self).core.read_core@[port as int].events is None,
        ensures
            final(self).wf(),
            final(self).core.buffered_values == old(self).core.buffered_values,
            final(self).core.dirty == old(self).core.dirty,
            final(self).core.last_error == old(self).core.last_error,
            final(self).core.read_core.alias_text() == old(self).core.read_core.alias_text(),
            port < 16 ==> {
                &&& result is Ok
                &&& final(self).core.read_core@ == old(self).core.read_core@.update(
                    port as int,
                    old(self).core.read_core@[port as int].listened_to(),
                )
                &&& final(self).core.scalings@ == (match scaling {
                    Some(s) => old(self).core.scalings@.update(port as int, s),
                    None => old(self).core.scalings@,
                })
            },
            port >= 16 ==> {
                &&& outcome(result) == Err::<(), Seq<char>>("MCP23017 has 16 ports only"@)
                &&& final(self).core == old(self).core
            },
    {
        if port >= 16 {
            return Err("MCP23017 has 16 ports only".to_owned());
        }
        self.core.get_output_port(port, scaling)
    }
}

proof fn lemma_digits_of_sum(
    v: u16,
    d0: bool,
    d1: bool,
    d2: bool,
    d3: bool,
    d4: bool,
    d5: bool,
    d6: bool,
    d7: bool,
)
    by (bit_vector)
    requires
        v == (if d0 { 1u16 } else { 0 }) + (if d1 { 2u16 } else { 0 }) + (if d2 { 4u16 } else { 0 })
            + (if d3 { 8u16 } else { 0 }) + (if d4 { 16u16 } else { 0 }) + (if d5 { 32u16 } else { 0 })
            + (if d6 { 64u16 } else { 0 }) + (if d7 { 128u16 } else { 0 }),
    ensures
        (v / 1 % 2 == 1) == d0,
        (v / 2 % 2 == 1) == d1,
        (v / 4 % 2 == 1) == d2,
        (v / 8 % 2 == 1) == d3,
        (v / 16 % 2 == 1) == d4,
        (v / 32 % 2 == 1) == d5,
        (v / 64 % 2 == 1) == d6,
        (v / 128 % 2 == 1) == d7,
{
}

proof fn lemma_digits_of_byte(v: u16, set: spec_fn(int) -> bool)
    requires
        v == byte_of(set),
    ensures
        v < 256,
        digit(v as int, 0) == set(0),
        digit(v as int, 1) == set(1),
        digit(v as int, 2) == set(2),
        digit(v as int, 3) == set(3),
        digit(v as int, 4) == set(4),
        digit(v as int, 5) == set(5),
        digit(v as int, 6) == set(6),
        digit(v as int, 7) == set(7),
{
    lemma_digits_of_sum(
        v,
        set(0),
        set(1),
        set(2),
        set(3),
        set(4),
        set(5),
        set(6),
        set(7),
    );
}

proof fn lemma_bits_of_word(word: u16, set: spec_fn(int) -> bool, i: u16)
    requires
        word == word_of(set),
        i < 16,
    ensures
        (word & (1u16 << i) != 0) == set(i as int),
{
    let upper = |k: int| set(k + 8);
    lemma_small_byte(set);
    lemma_small_byte(upper);
    let low = byte_of(set) as u16;
    let high = byte_of(upper) as u16;
    lemma_halves(set, upper);
    assert(word == high * 256 + low);
    lemma_digits_of_byte(low, set);
    lemma_digits_of_byte(high, upper);
    assert(word == (high << 8u16) | low) by (bit_vector)
        requires
            word == high * 256 + low,
            high < 256,
            low < 256,
    ;
    lemma_joined_digits(high, low, word);
    lemma_word_mask(word, i);
    if i >= 8 {
        assert(upper(i - 8) == set(i as int));
    }
}

proof fn lemma_small_byte(set: spec_fn(int) -> bool)
    ensures
        0 <= byte_of(set) < 256,
{
}

proof fn lemma_halves(set: spec_fn(int) -> bool, upper: spec_fn(int) -> bool)
    requires
        forall|k: int| 0 <= k < 8 ==> #[trigger] upper(k) == set(k + 8),
    ensures
        word_of(set) == byte_of(set) + 256 * byte_of(upper),
{
    assert(upper(0) == set(8));
    assert(valued(set(8), 8) == 256 * valued(upper(0), 0));
    assert(upper(1) == set(9));
    assert(valued(set(9), 9) == 256 * valued(upper(1), 1));
    assert(upper(2) == set(10));
    assert(valued(set(10), 10) == 256 * valued(upper(2), 2));
    assert(upper(3) == set(11));
    assert(valued(set(11), 11) == 256 * valued(upper(3), 3));
    assert(upper(4) == set(12));
    assert(valued(set(12), 12) == 256 * valued(upper(4), 4));
    assert(upper(5) == set(13));
    assert(valued(set(13), 13) == 256 * valued(upper(5), 5));
    assert(upper(6) == set(14));
    assert(valued(set(14), 14) == 256 * valued(upper(6), 6));
    assert(upper(7) == set(15));
    assert(valued(set(15), 15) == 256 * valued(upper(7), 7));
}

/// Every value has its own bit, the first one the lowest. The bit is set exactly if the value is
/// not zero.
pub proof fn law_every_value_has_its_bit(word: u16, values: Seq<OutputValue>, i: u16)
    requires
        shows_values(word, values),
        i < 16,
    ensures
        word & (1u16 << i) != 0 <==> (i < values.len() && values[i as int] != 0),
{
    lemma_bits_of_word(word, |i: int| i < values.len() && values[i] != 0, i);
}

} // verus!
