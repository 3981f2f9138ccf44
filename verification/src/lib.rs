//! Board-support core for a "Blue Pill" class microcontroller, reduced to the
//! parts with real protocol logic: a timeout-bounded line reader over a byte
//! channel, and the AT-command modem driver built on top of it.
//!
//! Hardware is kept behind two small traits ([`port::Channel`] and
//! [`port::CountdownTimer`]); adapters over a UART and a hardware timer live
//! outside this crate, and scripted implementations for host-side runs are in
//! [`sim`].

pub mod io;
pub mod net;
pub mod port;
pub mod serial;
pub mod sim;
