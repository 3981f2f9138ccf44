//! Network-facing abstractions: connection status and a TCP stream
//! interface, plus the ESP8266 modem driver in [`esp826601s`].

use vstd::prelude::*;

use crate::io::Error;

pub mod esp826601s;

verus! {

/// Whether an association with an access point exists.
pub enum Status {
    Cnnected,
    Disconnect,
}

/// A byte stream over an established TCP session.
pub trait TcpStream: Sized {
    /// Open a stream to `addr` (host, port).
    fn connect(addr: (&str, u16)) -> Result<Self, Error>;

    /// Read up to `buf`'s free capacity worth of bytes; returns how many
    /// bytes were appended.
    fn read(&mut self, buf: &mut Vec<u8>) -> Result<usize, Error>;

    /// Write the bytes of `buf`; returns how many were written.
    fn write(&mut self, buf: &[u8]) -> Result<usize, Error>;

    /// Hint the desired transmit buffer size.
    fn set_write_buffer(&mut self, size: usize) -> Result<(), Error>;

    /// Hint the desired receive buffer size.
    fn set_read_buffer(&mut self, size: usize) -> Result<(), Error>;
}

} // verus!
