//! What drivers ask of an I2C bus.
//!
//! A driver does not use the bus itself. It says which transaction it needs, and is handed the
//! reply: the bytes that were read, or a text that says what went wrong.
use vstd::prelude::*;

verus! {

/// A transaction on an I2C bus.
#[derive(Debug)]
pub enum I2cRequest {
    /// Writes bytes.
    Write { address: u8, bytes: Vec<u8> },
    /// Writes bytes, and reads `len` bytes after that.
    WriteRead { address: u8, bytes: Vec<u8>, len: usize },
}

/// A transaction as contracts see it.
pub enum RequestView {
    Write { address: u8, bytes: Seq<u8> },
    WriteRead { address: u8, bytes: Seq<u8>, len: int },
}

impl View for I2cRequest {
    type V = RequestView;

    open spec fn view(&self) -> RequestView {
        match self {
            I2cRequest::Write { address, bytes } => RequestView::Write {
                address: *address,
                bytes: bytes@,
            },
            I2cRequest::WriteRead { address, bytes, len } => RequestView::WriteRead {
                address: *address,
                bytes: bytes@,
                len: *len as int,
            },
        }
    }
}

/// A reply of the bus as contracts see it.
pub open spec fn reply_view(reply: Result<Vec<u8>, String>) -> Result<Seq<u8>, Seq<char>> {
    match reply {
        Ok(bytes) => Ok(bytes@),
        Err(message) => Err(message@),
    }
}

/// A write of two bytes: a register and its new value.
pub fn write_register(address: u8, register: u8, value: u8) -> (request: I2cRequest)
    ensures
        request@ == (RequestView::Write { address, bytes: seq![register, value] }),
{
    let mut bytes: Vec<u8> = Vec::new();
    bytes.push(register);
    bytes.push(value);
    assert(bytes@ =~= seq![register, value]);
    I2cRequest::Write { address, bytes }
}

/// A read of `len` registers from register `register` on.
pub fn read_from_register(address: u8, register: u8, len: usize) -> (request: I2cRequest)
    ensures
        request@ == (RequestView::WriteRead { address, bytes: seq![register], len: len as int }),
{
    let mut bytes: Vec<u8> = Vec::new();
    bytes.push(register);
    assert(bytes@ =~= seq![register]);
    I2cRequest::WriteRead { address, bytes, len }
}

} // verus!
