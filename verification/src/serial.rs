//! Builder for wiring a USART peripheral into a serial port.
//!
//! The builder only collects parts and settings; turning them into a live
//! peripheral is target-specific and happens outside this crate.  The line
//! settings are held as plain values in [`SerialConfig`]; the hardware parts
//! (the USART itself, the pins, the clock handle, the remap and control
//! registers, the bus) pass through as opaque type parameters.

use vstd::prelude::*;

verus! {

/// Parity setting of a serial line.
#[derive(Clone, Copy, Debug, PartialEq, Eq, Structural)]
pub enum Parity {
    ParityNone,
    ParityEven,
    ParityOdd,
}

/// Stop-bit setting of a serial line.
#[derive(Clone, Copy, Debug, PartialEq, Eq, Structural)]
pub enum StopBits {
    /// One stop bit.
    STOP1,
    /// Half a stop bit.
    STOP0P5,
    /// Two stop bits.
    STOP2,
    /// One and a half stop bits.
    STOP1P5,
}

/// Line settings of a serial port.
#[derive(Clone, Copy, Debug, PartialEq, Eq, Structural)]
pub struct SerialConfig {
    /// Symbols per second on the wire.
    pub baudrate: u32,
    /// Parity setting.
    pub parity: Parity,
    /// Stop-bit setting.
    pub stopbits: StopBits,
}

/// The settings a fresh builder starts from: 115200 baud, no parity, one
/// stop bit.
pub open spec fn default_config() -> SerialConfig {
    SerialConfig { baudrate: 115200, parity: Parity::ParityNone, stopbits: StopBits::STOP1 }
}

/// Collects everything needed to bring up a USART: the peripheral, its pins,
/// the clock configuration, register handles, and the line settings.
pub struct Serial<USART, PINX, PINY, CLK, BUS, CR, MAPR> {
    /// The USART peripheral.
    pub usart: USART,
    /// Transmit and receive pins.
    pub pins: Option<(PINX, PINY)>,
    /// The frozen clock configuration.
    pub clocks: Option<CLK>,
    /// The alternate-function remap register handle.
    pub afio_mapr: Option<MAPR>,
    /// The peripheral bus handle.
    pub apb: Option<BUS>,
    /// The pin control register handle.
    pub cr: Option<CR>,
    /// The line settings.
    pub config: SerialConfig,
}

impl<USART, PINX, PINY, CLK, BUS, CR, MAPR> Serial<USART, PINX, PINY, CLK, BUS, CR, MAPR> {
    /// Start a builder around a USART peripheral, with nothing else wired
    /// and the default line settings.
    pub fn with_usart(usart: USART) -> (r: Self)
        ensures
            r.usart == usart,
            r.pins is None,
            r.clocks is None,
            r.afio_mapr is None,
            r.apb is None,
            r.cr is None,
            r.config == default_config(),
    {
        Serial {
            usart,
            pins: None,
            clocks: None,
            afio_mapr: None,
            apb: None,
            cr: None,
            config: SerialConfig {
                baudrate: 115200,
                parity: Parity::ParityNone,
                stopbits: StopBits::STOP1,
            },
        }
    }

    /// Hand over the remap register handle.
    pub fn afio_mapr(self, mapr: MAPR) -> (r: Self)
        ensures
            r == (Serial { afio_mapr: Some(mapr), ..self }),
    {
        Serial { afio_mapr: Some(mapr), ..self }
    }

    /// Hand over the transmit and receive pins.
    pub fn pins(self, tx: PINX, rx: PINY) -> (r: Self)
        ensures
            r == (Serial { pins: Some((tx, rx)), ..self }),
    {
        Serial { pins: Some((tx, rx)), ..self }
    }

    /// Hand over the frozen clock configuration.
    pub fn clocks(self, clocks: CLK) -> (r: Self)
        ensures
            r == (Serial { clocks: Some(clocks), ..self }),
    {
        Serial { clocks: Some(clocks), ..self }
    }

    /// Hand over the peripheral bus handle.
    pub fn bus(self, apb: BUS) -> (r: Self)
        ensures
            r == (Serial { apb: Some(apb), ..self }),
    {
        Serial { apb: Some(apb), ..self }
    }

    /// Hand over the pin control register handle.
    pub fn cr(self, cr: CR) -> (r: Self)
        ensures
            r == (Serial { cr: Some(cr), ..self }),
    {
        Serial { cr: Some(cr), ..self }
    }

    /// Set the baud rate.
    pub fn baudrate(self, baud: u32) -> (r: Self)
        ensures
            r.config == (SerialConfig { baudrate: baud, ..self.config }),
            r.usart == self.usart,
            r.pins == self.pins,
            r.clocks == self.clocks,
            r.afio_mapr == self.afio_mapr,
            r.apb == self.apb,
            r.cr == self.cr,
    {
        let config = SerialConfig { baudrate: baud, ..self.config };
        Serial { config, ..self }
    }

    /// Use no parity bit.
    pub fn parity_none(self) -> (r: Self)
        ensures
            r.config == (SerialConfig { parity: Parity::ParityNone, ..self.config }),
            r.usart == self.usart,
            r.pins == self.pins,
            r.clocks == self.clocks,
            r.afio_mapr == self.afio_mapr,
            r.apb == self.apb,
            r.cr == self.cr,
    {
        let config = SerialConfig { parity: Parity::ParityNone, ..self.config };
        Serial { config, ..self }
    }

    /// Use even parity.
    pub fn parity_even(self) -> (r: Self)
        ensures
            r.config == (SerialConfig { parity: Parity::ParityEven, ..self.config }),
            r.usart == self.usart,
            r.pins == self.pins,
            r.clocks == self.clocks,
            r.afio_mapr == self.afio_mapr,
            r.apb == self.apb,
            r.cr == self.cr,
    {
        let config = SerialConfig { parity: Parity::ParityEven, ..self.config };
        Serial { config, ..self }
    }

    /// Use odd parity.
    pub fn parity_odd(self) -> (r: Self)
        ensures
            r.config == (SerialConfig { parity: Parity::ParityOdd, ..self.config }),
            r.usart == self.usart,
            r.pins == self.pins,
            r.clocks == self.clocks,
            r.afio_mapr == self.afio_mapr,
            r.apb == self.apb,
            r.cr == self.cr,
    {
        let config = SerialConfig { parity: Parity::ParityOdd, ..self.config };
        Serial { config, ..self }
    }

    /// Set the stop-bit count.
    pub fn stopbits(self, stopbits: StopBits) -> (r: Self)
        ensures
            r.config == (SerialConfig { stopbits, ..self.config }),
            r.usart == self.usart,
            r.pins == self.pins,
            r.clocks == self.clocks,
            r.afio_mapr == self.afio_mapr,
            r.apb == self.apb,
            r.cr == self.cr,
    {
        let config = SerialConfig { stopbits, ..self.config };
        Serial { config, ..self }
    }
}

} // verus!
