use bluepill::io::{read_exact, read_line, read_until, Error, TimeoutReader};
use bluepill::sim::{ScriptedPort, ScriptedTimer};

fn port(feed: &[u8]) -> ScriptedPort {
    ScriptedPort::new(feed.to_vec(), 0, true, true)
}

#[test]
fn line_framing_excludes_delimiter_and_leaves_no_residue() {
    let mut reader = TimeoutReader::new(port(b"hello\nworld"), ScriptedTimer::new(10), 32);
    let line = reader.read_line(1000).unwrap();
    assert_eq!(line, b"hello".to_vec());
    // Only the bytes after the consumed line (and its delimiter) remain.
    assert_eq!(reader.port.remaining(), b"world".len());
}

#[test]
fn line_framing_returns_empty_line_for_leading_delimiter() {
    let mut reader = TimeoutReader::new(port(b"\nrest"), ScriptedTimer::new(10), 32);
    let line = reader.read_line(1000).unwrap();
    assert_eq!(line, Vec::<u8>::new());
    assert_eq!(reader.port.remaining(), 4);
}

#[test]
fn timeout_after_exactly_n_plus_one_polls() {
    // The timer reports "not elapsed" for the first 3 polls and "elapsed" on
    // poll 4; exactly 4 polls must happen before the error is returned.
    let mut reader = TimeoutReader::new(port(b""), ScriptedTimer::new(3), 32);
    let r = reader.read_line(1000);
    assert!(matches!(r, Err(Error::Timeout)));
    assert_eq!(reader.timer.polled(), 4);
}

#[test]
fn byte_arriving_on_a_late_poll_still_completes_the_line() {
    // Three stalls use up most of the timer's budget, but the line still
    // arrives before the timer reports elapsed.
    let p = ScriptedPort::new(b"x\n".to_vec(), 3, true, true);
    let mut reader = TimeoutReader::new(p, ScriptedTimer::new(3), 32);
    let line = reader.read_line(1000).unwrap();
    assert_eq!(line, b"x".to_vec());
}

#[test]
fn overfull_line_yields_buffer_full_not_truncation() {
    let feed: Vec<u8> = vec![b'a'; 20];
    let p = ScriptedPort::new(feed, 0, true, true);
    let mut reader = TimeoutReader::new(p, ScriptedTimer::new(10), 8);
    let r = reader.read_line(1000);
    assert!(matches!(r, Err(Error::BufferFull)));
}

#[test]
fn line_exactly_at_capacity_still_succeeds() {
    let mut reader = TimeoutReader::new(port(b"abcd\n"), ScriptedTimer::new(10), 4);
    let line = reader.read_line(1000).unwrap();
    assert_eq!(line, b"abcd".to_vec());
}

#[test]
fn line_one_over_capacity_fails() {
    let mut reader = TimeoutReader::new(port(b"abcde\n"), ScriptedTimer::new(10), 4);
    let r = reader.read_line(1000);
    assert!(matches!(r, Err(Error::BufferFull)));
}

#[test]
fn read_line_reports_receive_faults() {
    let p = ScriptedPort::new(b"data\n".to_vec(), 0, false, true);
    let mut reader = TimeoutReader::new(p, ScriptedTimer::new(10), 32);
    let r = reader.read_line(1000);
    assert!(matches!(r, Err(Error::ReadError)));
}

#[test]
fn read_until_appends_after_existing_bytes() {
    let mut p = port(b"cd;rest");
    let mut timer = ScriptedTimer::new(10);
    let mut buf = b"ab".to_vec();
    let n = read_until(&mut p, &mut timer, b';', &mut buf, 16, 1000).unwrap();
    assert_eq!(n, 2);
    assert_eq!(buf, b"abcd".to_vec());
    assert_eq!(p.remaining(), b"rest".len());
}

#[test]
fn read_exact_returns_the_requested_prefix() {
    let mut p = port(b"abcdef");
    let mut timer = ScriptedTimer::new(10);
    let data = read_exact(&mut p, &mut timer, 4, 1000).unwrap();
    assert_eq!(data, b"abcd".to_vec());
    assert_eq!(p.remaining(), 2);
}

#[test]
fn read_exact_times_out_when_bytes_are_missing() {
    let mut p = port(b"ab");
    let mut timer = ScriptedTimer::new(5);
    let r = read_exact(&mut p, &mut timer, 4, 1000);
    assert!(matches!(r, Err(Error::Timeout)));
}

#[test]
fn error_messages_name_the_kind() {
    assert_eq!(Error::Timeout.message(), "timeout");
    assert_eq!(Error::EOF.message(), "end of file");
    assert_eq!(Error::WriteError.message(), "write error");
    assert_eq!(Error::ReadError.message(), "read error");
    assert_eq!(Error::Other(b"x".to_vec()).message(), "error");
    assert_eq!(Error::BufferFull.message(), "buffer full");
    assert_eq!(Error::Busy.message(), "device busy");
    assert_eq!(Error::NoIoDevice.message(), "no io device");
    assert_eq!(Error::NoNetwork.message(), "no network");
}

#[test]
fn read_line_free_function_matches_reader() {
    let mut p = port(b"one\ntwo\n");
    let mut timer = ScriptedTimer::new(10);
    let first = read_line(&mut p, &mut timer, 32, 1000).unwrap();
    let second = read_line(&mut p, &mut timer, 32, 1000).unwrap();
    assert_eq!(first, b"one".to_vec());
    assert_eq!(second, b"two".to_vec());
    assert_eq!(p.remaining(), 0);
}
