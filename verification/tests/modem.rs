use bluepill::io::Error;
use bluepill::net::esp826601s::Esp8266;
use bluepill::sim::{ScriptedPort, ScriptedTimer};

fn modem(feed: &[u8]) -> Esp8266<ScriptedPort, ScriptedTimer> {
    Esp8266::new(ScriptedPort::new(feed.to_vec(), 0, true, true), ScriptedTimer::new(8))
}

#[test]
fn device_info_accumulates_echo_version_and_terminal_line() {
    let mut m = modem(b"AT+GMR\r\nv1.2.3\r\nOK\r\n");
    let reply = m.device_info().unwrap();
    assert_eq!(reply, b"AT+GMR\r\nv1.2.3\r\nOK\r\n".to_vec());
    let text = String::from_utf8(reply).unwrap();
    assert!(text.contains("v1.2.3"));
    assert!(text.contains("OK"));
    assert_eq!(m.port.written(), &b"AT+GMR\r\n".to_vec());
}

#[test]
fn hello_classifies_error_reply_as_other() {
    let mut m = modem(b"ERROR\n");
    let r = m.hello();
    match r {
        Err(Error::Other(text)) => assert_eq!(text, b"ERROR\n".to_vec()),
        other => panic!("expected Other, got {:?}", other),
    }
}

#[test]
fn hello_keeps_carriage_return_in_error_payload() {
    let mut m = modem(b"ERROR\r\n");
    let r = m.hello();
    match r {
        Err(Error::Other(text)) => assert_eq!(text, b"ERROR\r\n".to_vec()),
        other => panic!("expected Other, got {:?}", other),
    }
}

#[test]
fn busy_reply_provokes_a_retry_then_success() {
    let mut m = modem(b"busy p...\r\nOK\r\n");
    let reply = m.hello().unwrap();
    assert_eq!(reply, b"OK\r\n".to_vec());
    // The command was issued twice: once originally, once on retry.
    assert_eq!(m.port.written(), &b"AT\r\nAT\r\n".to_vec());
}

#[test]
fn busy_retries_are_bounded() {
    // Five attempts are permitted in all; a fifth busy line exhausts them
    // even though the device would have answered afterwards.
    let mut m = modem(b"busy\r\nbusy\r\nbusy\r\nbusy\r\nbusy\r\nOK\r\n");
    let r = m.hello();
    assert!(matches!(r, Err(Error::Busy)));
    assert_eq!(m.port.written(), &b"AT\r\nAT\r\nAT\r\nAT\r\nAT\r\n".to_vec());
}

#[test]
fn busy_four_times_still_succeeds() {
    let mut m = modem(b"busy\r\nbusy\r\nbusy\r\nbusy\r\nOK\r\n");
    let reply = m.hello().unwrap();
    assert_eq!(reply, b"OK\r\n".to_vec());
}

#[test]
fn send_data_round_trip_writes_exactly_the_payload_after_the_prompt() {
    let mut m = modem(b"OK\r\n>SEND OK\r\n");
    let n = m.send_data(b"hello").unwrap();
    assert_eq!(n, 5);
    let written = m.port.written();
    assert_eq!(written, &b"AT+CIPSEND=5\r\nhello".to_vec());
    // Everything after the announcement is exactly the payload.
    let announce = b"AT+CIPSEND=5\r\n".len();
    assert_eq!(&written[announce..], b"hello");
}

#[test]
fn send_data_reports_send_failure_as_write_error() {
    let mut m = modem(b"OK\r\n>SEND FAIL\r\n");
    let r = m.send_data(b"hi");
    assert!(matches!(r, Err(Error::WriteError)));
}

#[test]
fn send_data_formats_multi_digit_lengths() {
    let mut m = modem(b"OK\r\n>SEND OK\r\n");
    let n = m.send_data(b"hello world!").unwrap();
    assert_eq!(n, 12);
    assert_eq!(m.port.written(), &b"AT+CIPSEND=12\r\nhello world!".to_vec());
}

#[test]
fn send_data_formats_zero_length() {
    let mut m = modem(b"OK\r\n>SEND OK\r\n");
    let n = m.send_data(b"").unwrap();
    assert_eq!(n, 0);
    assert_eq!(m.port.written(), &b"AT+CIPSEND=0\r\n".to_vec());
}

#[test]
fn hello_twice_yields_two_independent_successes() {
    let mut m = modem(b"OK\r\nOK\r\n");
    let first = m.hello().unwrap();
    let second = m.hello().unwrap();
    // The accumulator is fresh per call: neither reply leaks into the other.
    assert_eq!(first, b"OK\r\n".to_vec());
    assert_eq!(second, b"OK\r\n".to_vec());
    assert_eq!(m.port.written(), &b"AT\r\nAT\r\n".to_vec());
}

#[test]
fn hello_times_out_on_a_silent_channel() {
    let mut m = modem(b"");
    let r = m.hello();
    assert!(matches!(r, Err(Error::Timeout)));
}

#[test]
fn hello_times_out_when_the_reply_stalls_past_the_budget() {
    // The reply exists but each byte stalls; the timer's budget of 2 polls
    // runs out first.
    let mut m = Esp8266::new(
        ScriptedPort::new(b"OK\r\n".to_vec(), 100, true, true),
        ScriptedTimer::new(2),
    );
    let r = m.hello();
    assert!(matches!(r, Err(Error::Timeout)));
}

#[test]
fn hello_reports_receive_faults() {
    let mut m = Esp8266::new(
        ScriptedPort::new(b"OK\r\n".to_vec(), 0, false, true),
        ScriptedTimer::new(8),
    );
    let r = m.hello();
    assert!(matches!(r, Err(Error::ReadError)));
}

#[test]
fn hello_reports_transmit_faults() {
    let mut m = Esp8266::new(
        ScriptedPort::new(b"OK\r\n".to_vec(), 0, true, false),
        ScriptedTimer::new(8),
    );
    let r = m.hello();
    assert!(matches!(r, Err(Error::WriteError)));
}

#[test]
fn overlong_reply_line_yields_buffer_full() {
    let mut feed: Vec<u8> = vec![b'a'; 200];
    feed.push(b'\n');
    let mut m = Esp8266::new(ScriptedPort::new(feed, 0, true, true), ScriptedTimer::new(8));
    let r = m.hello();
    assert!(matches!(r, Err(Error::BufferFull)));
}

#[test]
fn overfull_reply_accumulator_yields_buffer_full() {
    // Three informational lines of 101 bytes each would push the accumulator
    // past its capacity of 256 before any terminal line arrives.
    let mut feed: Vec<u8> = Vec::new();
    for _ in 0..3 {
        feed.extend_from_slice(&[b'x'; 100]);
        feed.push(b'\n');
    }
    feed.extend_from_slice(b"OK\r\n");
    let mut m = Esp8266::new(ScriptedPort::new(feed, 0, true, true), ScriptedTimer::new(8));
    let r = m.hello();
    assert!(matches!(r, Err(Error::BufferFull)));
}

#[test]
fn dial_sends_join_then_autoconnect_and_returns_the_join_reply() {
    let mut m = modem(b"WIFI CONNECTED\r\nOK\r\nOK\r\n");
    let reply = m.dial("myssid", "secret", true).unwrap();
    assert_eq!(reply, b"WIFI CONNECTED\r\nOK\r\n".to_vec());
    assert_eq!(
        m.port.written(),
        &b"AT+CWJAP_DEF=\"myssid\",\"secret\"\r\nAT+CWAUTOCONN=1\r\n".to_vec()
    );
}

#[test]
fn dial_without_autoconnect_clears_the_flag() {
    let mut m = modem(b"OK\r\nOK\r\n");
    m.dial("s", "p", false).unwrap();
    assert_eq!(m.port.written(), &b"AT+CWJAP_DEF=\"s\",\"p\"\r\nAT+CWAUTOCONN=0\r\n".to_vec());
}

#[test]
fn dial_propagates_a_join_rejection() {
    let mut m = modem(b"ERROR\r\n");
    let r = m.dial("s", "p", true);
    match r {
        Err(Error::Other(text)) => assert_eq!(text, b"ERROR\r\n".to_vec()),
        other => panic!("expected Other, got {:?}", other),
    }
    // The auto-join command is never sent after a failed join.
    assert_eq!(m.port.written(), &b"AT+CWJAP_DEF=\"s\",\"p\"\r\n".to_vec());
}

#[test]
fn ifconfig_concatenates_both_replies() {
    let mut m = modem(b"ip:1.2.3.4\r\nOK\r\nmask:255\r\nOK\r\n");
    let reply = m.ifconfig().unwrap();
    assert_eq!(reply, b"ip:1.2.3.4\r\nOK\r\nmask:255\r\nOK\r\n".to_vec());
    assert_eq!(m.port.written(), &b"AT+CIFSR\r\nAT+CIPSTA_CUR?\r\n".to_vec());
}

#[test]
fn ping_quotes_the_domain() {
    let mut m = modem(b"OK\r\n");
    m.ping("example.org").unwrap();
    assert_eq!(m.port.written(), &b"AT+PING=\"example.org\"\r\n".to_vec());
}

#[test]
fn reslove_uses_the_domain_command() {
    let mut m = modem(b"OK\r\n");
    m.reslove("example.org").unwrap();
    assert_eq!(m.port.written(), &b"AT+CIPDOMAIN=\"example.org\"\r\n".to_vec());
}

#[test]
fn connect_builds_the_tcp_open_command() {
    let mut m = modem(b"CONNECT\r\nOK\r\n");
    let reply = m.connect(("iot.example", "8000")).unwrap();
    assert_eq!(reply, b"CONNECT\r\nOK\r\n".to_vec());
    assert_eq!(m.port.written(), &b"AT+CIPSTART=\"TCP\",\"iot.example\",8000\r\n".to_vec());
}

#[test]
fn read_data_requests_buffered_bytes() {
    let mut m = modem(b"OK\r\n");
    m.read_data(64).unwrap();
    assert_eq!(m.port.written(), &b"AT+CIPRECVDATA=64\r\n".to_vec());
}

#[test]
fn simple_commands_send_their_text() {
    let mut m = modem(b"OK\r\nOK\r\nOK\r\nOK\r\nOK\r\nOK\r\n");
    m.hello().unwrap();
    m.reset().unwrap();
    m.restore().unwrap();
    m.hangup().unwrap();
    m.net_state().unwrap();
    m.disconnect().unwrap();
    assert_eq!(
        m.port.written(),
        &b"AT\r\nAT+RST\r\nAT+RESTORE\r\nAT+CWQAP\r\nAT+CIPSTATUS\r\nAT+CIPCLOSE\r\n".to_vec()
    );
}

#[test]
fn write_exact_reports_the_byte_count() {
    let mut m = modem(b"");
    let n = m.write_exact(b"abc").unwrap();
    assert_eq!(n, 3);
    assert_eq!(m.port.written(), &b"abc".to_vec());
}

#[test]
fn request_accepts_a_custom_command() {
    let mut m = modem(b"ready\r\nOK\r\n");
    let reply = m.request(b"AT+CUSTOM\r\n", 2000).unwrap();
    assert_eq!(reply, b"ready\r\nOK\r\n".to_vec());
    assert_eq!(m.port.written(), &b"AT+CUSTOM\r\n".to_vec());
}
