use bluepill::serial::{Parity, Serial, SerialConfig, StopBits};

type TestSerial = Serial<u8, u16, u16, u32, u32, u32, u32>;

#[test]
fn builder_starts_with_defaults() {
    let s: TestSerial = Serial::with_usart(1);
    assert_eq!(s.usart, 1);
    assert!(s.pins.is_none());
    assert!(s.clocks.is_none());
    assert!(s.afio_mapr.is_none());
    assert!(s.apb.is_none());
    assert!(s.cr.is_none());
    assert_eq!(
        s.config,
        SerialConfig { baudrate: 115200, parity: Parity::ParityNone, stopbits: StopBits::STOP1 }
    );
}

#[test]
fn builder_collects_parts() {
    let s: TestSerial =
        Serial::with_usart(1).pins(10, 11).clocks(72).bus(1).cr(2).afio_mapr(3);
    assert_eq!(s.pins, Some((10, 11)));
    assert_eq!(s.clocks, Some(72));
    assert_eq!(s.apb, Some(1));
    assert_eq!(s.cr, Some(2));
    assert_eq!(s.afio_mapr, Some(3));
}

#[test]
fn builder_applies_line_settings() {
    let s: TestSerial = Serial::with_usart(1).baudrate(9600).parity_even().stopbits(
        StopBits::STOP2,
    );
    assert_eq!(
        s.config,
        SerialConfig { baudrate: 9600, parity: Parity::ParityEven, stopbits: StopBits::STOP2 }
    );
}

#[test]
fn later_settings_override_earlier_ones() {
    let s: TestSerial = Serial::with_usart(1).parity_even().parity_odd().parity_none();
    assert_eq!(s.config.parity, Parity::ParityNone);
    let s: TestSerial = Serial::with_usart(1).baudrate(9600).baudrate(57600);
    assert_eq!(s.config.baudrate, 57600);
}
