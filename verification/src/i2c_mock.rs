//! An in-memory I2C device with 256 byte registers.
//!
//! It stands in for a real bus on machines without I2C hardware. The register pointer of the
//! emulated chip auto-increments and wraps around.
use vstd::prelude::*;

verus! {

/// The number of registers of the emulated chip.
pub const REGISTER_COUNT: usize = 256;

/// The error type of the mock. No operation of the mock ever fails.
#[derive(Debug, Clone, Copy, PartialEq, Eq, Structural)]
pub struct I2cMockError;

/// The mock I2C state.
pub struct I2cMock {
    /// Registers.
    pub data_values: [u8; 256],
}

/// The register that is reached `steps` increments after `start`.
pub open spec fn register_at(start: u8, steps: int) -> int {
    (start + steps) % 256
}

/// The registers after `data` was stored from register `start` on, one byte per register.
pub open spec fn stored(registers: Seq<u8>, start: u8, data: Seq<u8>) -> Seq<u8>
    decreases data.len(),
{
    if data.len() == 0 {
        registers
    } else {
        stored(registers, start, data.drop_last()).update(
            register_at(start, data.len() - 1),
            data.last(),
        )
    }
}

/// The `len` bytes that are read from register `start` on.
pub open spec fn loaded(registers: Seq<u8>, start: u8, len: nat) -> Seq<u8> {
    Seq::new(len, |i: int| registers[register_at(start, i)])
}

impl I2cMock {
    /// Creates a mock whose registers are all zero.
    pub fn new() -> (mock: Self)
        ensures
            mock.data_values@ == Seq::new(256, |i: int| 0u8),
    {
        I2cMock { data_values: [0; 256] }
    }

    /// Reads registers.
    ///
    /// The first byte of `bytes` selects the register to start at. The slave address is ignored.
    pub fn write_read(&mut self, _address: u8, bytes: &[u8], buffer: &mut [u8]) -> (result: Result<
        (),
        I2cMockError,
    >)
        requires
            bytes@.len() > 0,
        ensures
            result == Ok::<(), I2cMockError>(()),
            final(buffer)@ == loaded(old(self).data_values@, bytes@[0], old(buffer)@.len()),
            *final(self) == *old(self),
    {
        let mut data_offset: usize = bytes[0] as usize;
        let ghost start = bytes@[0];
        let len: usize = buffer.len();
        let mut i: usize = 0;
        while i < len
            invariant
                len == buffer@.len(),
                len == old(buffer)@.len(),
                i <= len,
                data_offset == register_at(start, i as int),
                forall|j: int|
                    0 <= j < i ==> buffer@[j] == self.data_values@[register_at(start, j)],
                *self == *old(self),
            decreases len - i,
        {
            buffer[i] = self.data_values[data_offset];
            data_offset = (data_offset + 1) % REGISTER_COUNT;
            i += 1;
        }
        assert(buffer@ =~= loaded(self.data_values@, start, len as nat));
        Ok(())
    }

    /// Writes registers.
    ///
    /// The first byte of `bytes` selects the register to start at, the others are stored from
    /// there on. A write of a single byte is a command and is discarded. The slave address is
    /// ignored.
    pub fn write(&mut self, _address: u8, bytes: &[u8]) -> (result: Result<(), I2cMockError>)
        requires
            bytes@.len() > 0,
        ensures
            result == Ok::<(), I2cMockError>(()),
            final(self).data_values@ == stored(
                old(self).data_values@,
                bytes@[0],
                bytes@.drop_first(),
            ),
    {
        let ghost start = bytes@[0];
        let ghost data = bytes@.drop_first();
        if bytes.len() == 1 {
            assert(data.len() == 0);
            return Ok(());
        }
        let mut data_offset: usize = bytes[0] as usize;
        let len: usize = bytes.len();
        let mut i: usize = 1;
        assert(data.take(0).len() == 0);
        while i < len
            invariant
                len == bytes@.len(),
                1 <= i <= len,
                data == bytes@.drop_first(),
                data_offset == register_at(start, i - 1),
                self.data_values@ == stored(old(self).data_values@, start, data.take(i - 1)),
            decreases len - i,
        {
            self.data_values[data_offset] = bytes[i];
            data_offset = (data_offset + 1) % REGISTER_COUNT;
            proof {
                assert(data.take(i as int).drop_last() =~= data.take(i - 1));
                assert(data.take(i as int).last() == bytes@[i as int]);
            }
            i += 1;
        }
        assert(data.take(len - 1) =~= data);
        Ok(())
    }
}

/// The register at distance `k` from the start holds the byte that was stored there, as long as
/// the data does not wrap around onto itself.
proof fn lemma_stored_at(registers: Seq<u8>, start: u8, data: Seq<u8>, k: int)
    requires
        registers.len() == 256,
        data.len() <= 256,
        0 <= k < data.len(),
    ensures
        stored(registers, start, data).len() == 256,
        stored(registers, start, data)[register_at(start, k)] == data[k],
    decreases data.len(),
{
    lemma_stored_len(registers, start, data.drop_last());
    if k < data.len() - 1 {
        lemma_stored_at(registers, start, data.drop_last(), k);
        assert(register_at(start, k) != register_at(start, data.len() - 1));
    }
}

proof fn lemma_stored_len(registers: Seq<u8>, start: u8, data: Seq<u8>)
    requires
        registers.len() == 256,
    ensures
        stored(registers, start, data).len() == registers.len(),
    decreases data.len(),
{
    if data.len() > 0 {
        lemma_stored_len(registers, start, data.drop_last());
    }
}

/// A read gives back what was written: up to 256 bytes that are stored from some register on are
/// read again, in order, from that register.
pub proof fn law_read_gives_back_write(registers: Seq<u8>, start: u8, data: Seq<u8>)
    requires
        registers.len() == 256,
        data.len() <= 256,
    ensures
        loaded(stored(registers, start, data), start, data.len()) == data,
{
    assert forall|k: int| 0 <= k < data.len() implies #[trigger] stored(
        registers,
        start,
        data,
    )[register_at(start, k)] == data[k] by {
        lemma_stored_at(registers, start, data, k);
    }
    assert(loaded(stored(registers, start, data), start, data.len()) =~= data);
}

/// A write leaves every register alone that it does not address.
pub proof fn law_write_leaves_other_registers(
    registers: Seq<u8>,
    start: u8,
    data: Seq<u8>,
    register: int,
)
    requires
        registers.len() == 256,
        0 <= register < 256,
        forall|k: int| 0 <= k < data.len() ==> #[trigger] register_at(start, k) != register,
    ensures
        stored(registers, start, data)[register] == registers[register],
    decreases data.len(),
{
    if data.len() > 0 {
        lemma_stored_len(registers, start, data.drop_last());
        assert forall|k: int| 0 <= k < data.drop_last().len() implies #[trigger] register_at(
            start,
            k,
        ) != register by {}
        assert(register_at(start, data.len() - 1) != register);
        law_write_leaves_other_registers(registers, start, data.drop_last(), register);
    }
}

/// Bytes go to successive registers, from the given one on. Behind register 255 comes register 0.
pub proof fn law_bytes_go_to_successive_registers(
    registers: Seq<u8>,
    start: u8,
    data: Seq<u8>,
    k: int,
)
    requires
        registers.len() == 256,
        data.len() <= 256,
        0 <= k < data.len(),
    ensures
        stored(registers, start, data)[(if start + k < 256 {
            start + k
        } else {
            start + k - 256
        })] == data[k],
        loaded(registers, start, data.len())[k] == registers[(if start + k < 256 {
            start + k
        } else {
            start + k - 256
        })],
        loaded(registers, start, data.len()).len() == data.len(),
{
    lemma_stored_at(registers, start, data, k);
}

} // verus!
