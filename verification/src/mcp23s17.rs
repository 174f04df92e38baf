//! The MCP23S17 port expander, which is attached to an SPI bus.
use vstd::prelude::*;

use crate::buttons::join_pins;

verus! {

/// The register that holds the first eight pins.
pub const REGISTER_GPIOA: u8 = 0x12;

/// The bits of the address that are always set.
pub const FIXED_ADDRESS_BITS: u8 = 0b0100_0000;

/// The expander.
#[derive(Clone, Copy, Debug, PartialEq, Eq, Structural)]
pub struct MCP23S17 {
    address: u8,
}

/// The address for the given levels of the address pins.
pub open spec fn pin_address(a0: bool, a1: bool, a2: bool) -> int {
    0x40 + (if a0 {
        2int
    } else {
        0
    }) + (if a1 {
        4int
    } else {
        0
    }) + (if a2 {
        8int
    } else {
        0
    })
}

impl MCP23S17 {
    /// The address for writing.
    pub closed spec fn write_address(&self) -> int {
        self.address as int
    }

    /// The expander at the address that its address pins give it.
    pub fn new(a0: bool, a1: bool, a2: bool) -> (expander: Self)
        ensures
            expander.write_address() == pin_address(a0, a1, a2),
    {
        assert(0b0100_0000u8 | 0b0000_0010 == 0x42 && 0b0100_0000u8 | 0b0000_0100 == 0x44
            && 0b0100_0000u8 | 0b0000_1000 == 0x48 && 0x42u8 | 0b0000_0100 == 0x46 && 0x42u8
            | 0b0000_1000 == 0x4a && 0x44u8 | 0b0000_1000 == 0x4c && 0x46u8 | 0b0000_1000 == 0x4e)
            by (bit_vector);
        let mut address: u8 = FIXED_ADDRESS_BITS;
        if a0 {
            address = address | 0b0000_0010;
        }
        if a1 {
            address = address | 0b0000_0100;
        }
        if a2 {
            address = address | 0b0000_1000;
        }
        MCP23S17 { address }
    }

    /// The bytes that ask for the state of all pins. The lowest bit of the address is set, because
    /// something is read.
    pub fn read_command(&self) -> (bytes: [u8; 2])
        ensures
            bytes@[0] == self.write_address() - self.write_address() % 2 + 1,
            bytes@[1] == REGISTER_GPIOA,
    {
        let address: u8 = self.address;
        assert((address | 0x1) == address - address % 2 + 1) by (bit_vector);
        [self.address | 0x1, REGISTER_GPIOA]
    }

    /// The state of all pins from the two bytes that were received.
    pub fn read_gpio(received: [u8; 2]) -> (pins: u16)
        ensures
            pins == received@[0] * 256 + received@[1],
    {
        join_pins(received[0], received[1])
    }
}

/// Each address pin has its own bit in the address, and the upper half of the address is fixed. The
/// lowest bit is not set.
pub proof fn law_address_pins(a0: bool, a1: bool, a2: bool)
    ensures
        ({
            let address = pin_address(a0, a1, a2);
            &&& address / 16 == 4
            &&& (address / 8 % 2 == 1) == a2
            &&& (address / 4 % 2 == 1) == a1
            &&& (address / 2 % 2 == 1) == a0
            &&& address % 2 == 0
        }),
{
}

} // verus!
