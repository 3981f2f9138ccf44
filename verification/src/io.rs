//! Timeout-bounded reads over a byte channel.
//!
//! [`read_until`], [`read_line`] and [`read_exact`] poll a [`Channel`] for
//! bytes while a [`CountdownTimer`] bounds the wait: the timer is armed once
//! per call, and consulted only on iterations where no byte was available, so
//! a byte arriving in the same iteration the timer elapses is still consumed.
//! [`TimeoutReader`] packages a channel and a timer with a fixed line
//! capacity.
//!
//! A line is the bytes up to the next `\n`; the delimiter is consumed but not
//! included in the returned line.

use vstd::prelude::*;

use crate::port::{Channel, CountdownTimer, ReadPoll};

verus! {

/// The line delimiter: `\n`.
pub const NL: u8 = 10;

/// Everything that can go wrong in the I/O core and the modem driver.
#[derive(Debug)]
pub enum Error {
    /// The timer elapsed before the expected condition was met.
    Timeout,
    /// The peer ended the stream.
    EOF,
    /// The channel reported a transmit fault.
    WriteError,
    /// The channel reported a receive fault.
    ReadError,
    /// The remote device reported an error; the payload is its reply text.
    Other(Vec<u8>),
    /// Accumulation exceeded a fixed capacity before completion.
    BufferFull,
    /// The device reported busy on every permitted attempt.
    Busy,
    /// No channel has been attached yet.
    NoIoDevice,
    /// No network association exists.
    NoNetwork,
}

impl Error {
    /// A short, fixed description of the error kind.
    pub fn message(&self) -> (r: &'static str)
        ensures
            r@ == match self {
                Error::Timeout => "timeout"@,
                Error::EOF => "end of file"@,
                Error::WriteError => "write error"@,
                Error::ReadError => "read error"@,
                Error::Other(_) => "error"@,
                Error::BufferFull => "buffer full"@,
                Error::Busy => "device busy"@,
                Error::NoIoDevice => "no io device"@,
                Error::NoNetwork => "no network"@,
            },
    {
        match self {
            Error::Timeout => "timeout",
            Error::EOF => "end of file",
            Error::WriteError => "write error",
            Error::ReadError => "read error",
            Error::Other(_) => "error",
            Error::BufferFull => "buffer full",
            Error::Busy => "device busy",
            Error::NoIoDevice => "no io device",
            Error::NoNetwork => "no network",
        }
    }
}

/// Index of the first occurrence of `b` in `s`, or `s.len()` if `s` does not
/// contain `b`.
pub open spec fn find_byte(s: Seq<u8>, b: u8) -> int
    decreases s.len(),
{
    if s.len() == 0 {
        0
    } else if s[0] == b {
        0
    } else {
        1 + find_byte(s.skip(1), b)
    }
}

/// `find_byte` points at the first occurrence of `b`, and at `s.len()` when
/// there is none.
pub proof fn lemma_find_byte(s: Seq<u8>, b: u8)
    ensures
        0 <= find_byte(s, b) <= s.len(),
        find_byte(s, b) < s.len() ==> s[find_byte(s, b)] == b,
        forall|i: int| 0 <= i < find_byte(s, b) ==> s[i] != b,
        forall|k: int| 0 <= k < s.len() && s[k] == b ==> find_byte(s, b) <= k,
    decreases s.len(),
{
    if s.len() > 0 && s[0] != b {
        lemma_find_byte(s.skip(1), b);
        assert forall|i: int| 0 <= i < find_byte(s, b) implies s[i] != b by {
            if i > 0 {
                assert(s.skip(1)[i - 1] == s[i]);
            }
        }
        assert forall|k: int| 0 <= k < s.len() && s[k] == b implies find_byte(s, b) <= k by {
            assert(k > 0);
            assert(s.skip(1)[k - 1] == s[k]);
        }
    }
}

/// What a finished [`read_until`] call guarantees, over the channel's byte
/// stream before (`s`) and after (`s1`) the call, the buffer's contents
/// before (`buf0`) and after (`buf1`), and the room that was left in the
/// buffer.  `timer_done` is whether the timer had elapsed when the call
/// returned.
pub open spec fn read_until_result(
    s: Seq<u8>,
    s1: Seq<u8>,
    delim: u8,
    buf0: Seq<u8>,
    buf1: Seq<u8>,
    room: int,
    timer_done: bool,
    rx_ok: bool,
    r: Result<usize, Error>,
) -> bool {
    let f = find_byte(s, delim);
    match r {
        Ok(n) => {
            &&& n == f
            &&& f < s.len()
            &&& f <= room
            &&& buf1 == buf0 + s.take(f)
            &&& s1 == s.skip(f + 1)
        },
        Err(Error::BufferFull) => {
            &&& f > room
            &&& buf1 == buf0 + s.take(room)
            &&& s1 == s.skip(room + 1)
        },
        Err(Error::Timeout) => {
            &&& timer_done
            &&& exists|k: int|
                {
                    &&& 0 <= k <= s.len()
                    &&& k <= room
                    &&& (forall|i: int| 0 <= i < k ==> s[i] != delim)
                    &&& buf1 == buf0 + s.take(k)
                    &&& s1 == s.skip(k)
                }
        },
        Err(Error::ReadError) => !rx_ok,
        Err(_) => false,
    }
}

/// What a finished [`read_line`] call guarantees: the line returned is
/// exactly the stream's prefix up to (and excluding) the first `\n`, which
/// is consumed; each error names the stream shape that produced it.
pub open spec fn read_line_result(
    s: Seq<u8>,
    s1: Seq<u8>,
    cap: int,
    timer_done: bool,
    rx_ok: bool,
    r: Result<Vec<u8>, Error>,
) -> bool {
    let f = find_byte(s, NL);
    match r {
        Ok(line) => {
            &&& line@ == s.take(f)
            &&& f < s.len()
            &&& f <= cap
            &&& s1 == s.skip(f + 1)
        },
        Err(Error::BufferFull) => {
            &&& f > cap
            &&& s1 == s.skip(cap + 1)
        },
        Err(Error::Timeout) => {
            &&& timer_done
            &&& exists|k: int|
                {
                    &&& 0 <= k <= s.len()
                    &&& k <= cap
                    &&& (forall|i: int| 0 <= i < k ==> s[i] != NL)
                    &&& s1 == s.skip(k)
                }
        },
        Err(Error::ReadError) => !rx_ok,
        Err(_) => false,
    }
}

/// Write every byte of `data` to the channel, blocking on each byte.
/// Returns `false` as soon as the transmit side reports a fault.
pub fn write_all<C: Channel>(port: &mut C, data: &[u8]) -> (ok: bool)
    ensures
        final(port).incoming() == old(port).incoming(),
        final(port).rx_stalls() == old(port).rx_stalls(),
        final(port).rx_ok() == old(port).rx_ok(),
        final(port).tx_ok() == old(port).tx_ok(),
        ok ==> final(port).sent() == old(port).sent() + data@,
        !ok ==> !old(port).tx_ok(),
{
    let mut i: usize = 0;
    while i < data.len()
        invariant
            i <= data.len(),
            port.sent() == old(port).sent() + data@.take(i as int),
            port.incoming() == old(port).incoming(),
            port.rx_stalls() == old(port).rx_stalls(),
            port.rx_ok() == old(port).rx_ok(),
            port.tx_ok() == old(port).tx_ok(),
        decreases data.len() - i,
    {
        let b = data[i];
        if !port.write_byte(b) {
            return false;
        }
        i = i + 1;
        proof {
            assert(data@.take(i as int) == data@.take(i as int - 1).push(b));
        }
    }
    proof {
        assert(data@.take(data@.len() as int) == data@);
    }
    true
}

/// Append bytes from the channel to `buf` until `delim` is seen, the total
/// length would exceed `cap`, the channel faults, or the timer (armed here
/// with `timeout_ms`) elapses on an iteration with no byte available.
///
/// The delimiter is consumed but not appended.  On success the return value
/// is the number of bytes appended.
pub fn read_until<C: Channel, T: CountdownTimer>(
    port: &mut C,
    timer: &mut T,
    delim: u8,
    buf: &mut Vec<u8>,
    cap: usize,
    timeout_ms: u32,
) -> (r: Result<usize, Error>)
    requires
        old(buf)@.len() <= cap,
    ensures
        final(port).sent() == old(port).sent(),
        final(port).rx_ok() == old(port).rx_ok(),
        final(port).tx_ok() == old(port).tx_ok(),
        final(port).rx_stalls() <= old(port).rx_stalls(),
        forall|ms: u32| final(timer).budget(ms) == old(timer).budget(ms),
        read_until_result(
            old(port).incoming(),
            final(port).incoming(),
            delim,
            old(buf)@,
            final(buf)@,
            cap - old(buf)@.len(),
            final(timer).ticks_left() == 0,
            old(port).rx_ok(),
            r,
        ),
        ({
            let s = old(port).incoming();
            let f = find_byte(s, delim);
            let room = cap - old(buf)@.len();
            &&& (old(port).rx_ok() && old(port).rx_stalls() <= old(timer).budget(timeout_ms)
                && f < s.len() && f <= room) ==> (r matches Ok(_))
            &&& (old(port).rx_ok() && f == s.len() && f <= room) ==> (r matches Err(
                Error::Timeout,
            ))
            &&& (old(port).rx_ok() && old(port).rx_stalls() <= old(timer).budget(timeout_ms)
                && f > room) ==> (r matches Err(Error::BufferFull))
            &&& (old(port).rx_ok() && old(port).rx_stalls() <= old(timer).budget(timeout_ms)
                && (r matches Err(Error::Timeout))) ==> final(port).incoming()
                == Seq::<u8>::empty()
        }),
{
    let ghost s0 = old(port).incoming();
    let ghost n0 = old(buf)@.len() as int;
    let start_len = buf.len();
    timer.start(timeout_ms);
    proof {
        lemma_find_byte(s0, delim);
    }
    loop
        invariant
            s0 == old(port).incoming(),
            n0 == old(buf)@.len(),
            n0 == start_len,
            buf@.len() >= n0,
            buf@.len() <= cap,
            buf@ == old(buf)@ + s0.take(buf@.len() - n0),
            forall|i: int| 0 <= i < buf@.len() - n0 ==> s0[i] != delim,
            buf@.len() - n0 <= s0.len(),
            port.incoming() == s0.skip(buf@.len() - n0),
            port.sent() == old(port).sent(),
            port.rx_ok() == old(port).rx_ok(),
            port.tx_ok() == old(port).tx_ok(),
            port.rx_stalls() <= old(port).rx_stalls(),
            forall|ms: u32| timer.budget(ms) == old(timer).budget(ms),
            (old(port).rx_ok() && old(port).rx_stalls() <= old(timer).budget(timeout_ms))
                ==> port.rx_stalls() <= timer.ticks_left(),
        decreases port.incoming().len() + timer.ticks_left(),
    {
        let ghost done = buf@.len() - n0;
        match port.read_byte() {
            ReadPoll::Ready(b) => {
                proof {
                    lemma_find_byte(s0, delim);
                    assert(s0[done] == b);
                }
                if b == delim {
                    proof {
                        assert(find_byte(s0, delim) == done);
                        assert(port.incoming() =~= s0.skip(done + 1));
                    }
                    return Ok(buf.len() - start_len);
                }
                if buf.len() >= cap {
                    proof {
                        assert(find_byte(s0, delim) > done);
                        assert(port.incoming() =~= s0.skip(done + 1));
                    }
                    return Err(Error::BufferFull);
                }
                buf.push(b);
                proof {
                    assert(buf@ =~= old(buf)@ + s0.take(done + 1));
                }
            },
            ReadPoll::Pending => {
                if timer.poll_elapsed() {
                    proof {
                        lemma_find_byte(s0, delim);
                        if old(port).rx_ok() && old(port).rx_stalls() <= old(
                            timer,
                        ).budget(timeout_ms) {
                            assert(s0.skip(done).len() == 0);
                            assert(done == s0.len());
                            assert(port.incoming() =~= Seq::<u8>::empty());
                            if find_byte(s0, delim) < s0.len() {
                                assert(s0[find_byte(s0, delim)] == delim);
                                assert(false);
                            }
                        }
                        assert(buf@ == old(buf)@ + s0.take(done));
                        assert(port.incoming() == s0.skip(done));
                    }
                    return Err(Error::Timeout);
                }
            },
            ReadPoll::Fault => {
                return Err(Error::ReadError);
            },
        }
    }
}

/// Read one line: the bytes up to the first `\n`, which is consumed but not
/// returned.  The line may hold at most `cap` bytes; the wait is bounded by
/// arming the timer with `timeout_ms`.
pub fn read_line<C: Channel, T: CountdownTimer>(
    port: &mut C,
    timer: &mut T,
    cap: usize,
    timeout_ms: u32,
) -> (r: Result<Vec<u8>, Error>)
    ensures
        final(port).sent() == old(port).sent(),
        final(port).rx_ok() == old(port).rx_ok(),
        final(port).tx_ok() == old(port).tx_ok(),
        final(port).rx_stalls() <= old(port).rx_stalls(),
        forall|ms: u32| final(timer).budget(ms) == old(timer).budget(ms),
        read_line_result(
            old(port).incoming(),
            final(port).incoming(),
            cap as int,
            final(timer).ticks_left() == 0,
            old(port).rx_ok(),
            r,
        ),
        ({
            let s = old(port).incoming();
            let f = find_byte(s, NL);
            &&& (old(port).rx_ok() && old(port).rx_stalls() <= old(timer).budget(timeout_ms)
                && f < s.len() && f <= cap) ==> (r matches Ok(_))
            &&& (old(port).rx_ok() && f == s.len() && f <= cap) ==> (r matches Err(
                Error::Timeout,
            ))
            &&& (old(port).rx_ok() && old(port).rx_stalls() <= old(timer).budget(timeout_ms)
                && f > cap) ==> (r matches Err(Error::BufferFull))
            &&& (old(port).rx_ok() && old(port).rx_stalls() <= old(timer).budget(timeout_ms)
                && (r matches Err(Error::Timeout))) ==> final(port).incoming()
                == Seq::<u8>::empty()
        }),
{
    let ghost s = old(port).incoming();
    let mut line: Vec<u8> = Vec::new();
    match read_until(port, timer, NL, &mut line, cap, timeout_ms) {
        Ok(_) => {
            proof {
                assert(Seq::<u8>::empty() + s.take(find_byte(s, NL)) =~= s.take(
                    find_byte(s, NL),
                ));
            }
            Ok(line)
        },
        Err(e) => Err(e),
    }
}

/// Read exactly `count` bytes, with the wait bounded by arming the timer
/// with `timeout_ms`.
pub fn read_exact<C: Channel, T: CountdownTimer>(
    port: &mut C,
    timer: &mut T,
    count: usize,
    timeout_ms: u32,
) -> (r: Result<Vec<u8>, Error>)
    ensures
        final(port).sent() == old(port).sent(),
        final(port).rx_ok() == old(port).rx_ok(),
        final(port).tx_ok() == old(port).tx_ok(),
        final(port).rx_stalls() <= old(port).rx_stalls(),
        forall|ms: u32| final(timer).budget(ms) == old(timer).budget(ms),
        ({
            let s = old(port).incoming();
            match r {
                Ok(data) => {
                    &&& data@.len() == count
                    &&& count <= s.len()
                    &&& data@ == s.take(count as int)
                    &&& final(port).incoming() == s.skip(count as int)
                },
                Err(Error::Timeout) => {
                    &&& final(timer).ticks_left() == 0
                    &&& exists|k: int|
                        {
                            &&& 0 <= k <= s.len()
                            &&& k < count
                            &&& final(port).incoming() == s.skip(k)
                        }
                },
                Err(Error::ReadError) => !old(port).rx_ok(),
                Err(_) => false,
            }
        }),
        (old(port).rx_ok() && old(port).rx_stalls() <= old(timer).budget(timeout_ms)
            && old(port).incoming().len() >= count) ==> (r matches Ok(_)),
        (old(port).rx_ok() && old(port).rx_stalls() <= old(timer).budget(timeout_ms) && (
        r matches Err(Error::Timeout))) ==> final(port).incoming() == Seq::<u8>::empty(),
{
    let ghost s0 = old(port).incoming();
    timer.start(timeout_ms);
    let mut data: Vec<u8> = Vec::new();
    loop
        invariant
            s0 == old(port).incoming(),
            data@.len() <= count,
            data@ == s0.take(data@.len() as int),
            data@.len() <= s0.len(),
            port.incoming() == s0.skip(data@.len() as int),
            port.sent() == old(port).sent(),
            port.rx_ok() == old(port).rx_ok(),
            port.tx_ok() == old(port).tx_ok(),
            port.rx_stalls() <= old(port).rx_stalls(),
            forall|ms: u32| timer.budget(ms) == old(timer).budget(ms),
            (old(port).rx_ok() && old(port).rx_stalls() <= old(timer).budget(timeout_ms))
                ==> port.rx_stalls() <= timer.ticks_left(),
        decreases (count - data@.len()) + timer.ticks_left(),
    {
        let ghost done = data@.len() as int;
        if data.len() == count {
            return Ok(data);
        }
        match port.read_byte() {
            ReadPoll::Ready(b) => {
                proof {
                    assert(s0[done] == b);
                }
                data.push(b);
                proof {
                    assert(data@ =~= s0.take(done + 1));
                    assert(port.incoming() =~= s0.skip(done + 1));
                }
            },
            ReadPoll::Pending => {
                if timer.poll_elapsed() {
                    proof {
                        if old(port).rx_ok() && old(port).rx_stalls() <= old(
                            timer,
                        ).budget(timeout_ms) {
                            assert(s0.skip(done).len() == 0);
                            assert(done == s0.len());
                            assert(port.incoming() =~= Seq::<u8>::empty());
                        }
                    }
                    return Err(Error::Timeout);
                }
            },
            ReadPoll::Fault => {
                return Err(Error::ReadError);
            },
        }
    }
}

/// A byte channel and a countdown timer packaged with a fixed line capacity,
/// giving line-oriented and fixed-length reads bounded by a timeout.
pub struct TimeoutReader<R, TIM> {
    /// The byte channel read from.
    pub port: R,
    /// The timer bounding each read.
    pub timer: TIM,
    /// Largest number of bytes a single line or `read_until` call may hold.
    pub capacity: usize,
}

impl<R: Channel, TIM: CountdownTimer> TimeoutReader<R, TIM> {
    /// Package a channel and a timer with the given line capacity.
    pub fn new(port: R, timer: TIM, capacity: usize) -> (r: Self)
        ensures
            r.port == port,
            r.timer == timer,
            r.capacity == capacity,
    {
        TimeoutReader { port, timer, capacity }
    }

    /// Read one line, as [`read_line`] does, against this reader's capacity.
    pub fn read_line(&mut self, timeout_ms: u32) -> (r: Result<Vec<u8>, Error>)
        ensures
            final(self).capacity == old(self).capacity,
            final(self).port.sent() == old(self).port.sent(),
            final(self).port.rx_ok() == old(self).port.rx_ok(),
            final(self).port.tx_ok() == old(self).port.tx_ok(),
            final(self).port.rx_stalls() <= old(self).port.rx_stalls(),
            forall|ms: u32| final(self).timer.budget(ms) == old(self).timer.budget(ms),
            read_line_result(
                old(self).port.incoming(),
                final(self).port.incoming(),
                old(self).capacity as int,
                final(self).timer.ticks_left() == 0,
                old(self).port.rx_ok(),
                r,
            ),
            ({
                let s = old(self).port.incoming();
                let f = find_byte(s, NL);
                (old(self).port.rx_ok() && old(self).port.rx_stalls() <= old(
                    self,
                ).timer.budget(timeout_ms) && f < s.len() && f <= old(self).capacity) ==> (
                r matches Ok(_))
            }),
    {
        read_line(&mut self.port, &mut self.timer, self.capacity, timeout_ms)
    }

    /// Append bytes up to `delim` into `buf`, as [`read_until`] does.
    pub fn read_until(&mut self, delim: u8, buf: &mut Vec<u8>, timeout_ms: u32) -> (r: Result<
        usize,
        Error,
    >)
        requires
            old(buf)@.len() <= old(self).capacity,
        ensures
            final(self).capacity == old(self).capacity,
            final(self).port.sent() == old(self).port.sent(),
            final(self).port.rx_ok() == old(self).port.rx_ok(),
            final(self).port.tx_ok() == old(self).port.tx_ok(),
            final(self).port.rx_stalls() <= old(self).port.rx_stalls(),
            forall|ms: u32| final(self).timer.budget(ms) == old(self).timer.budget(ms),
            read_until_result(
                old(self).port.incoming(),
                final(self).port.incoming(),
                delim,
                old(buf)@,
                final(buf)@,
                old(self).capacity - old(buf)@.len(),
                final(self).timer.ticks_left() == 0,
                old(self).port.rx_ok(),
                r,
            ),
            ({
                let s = old(self).port.incoming();
                let f = find_byte(s, delim);
                let room = old(self).capacity - old(buf)@.len();
                (old(self).port.rx_ok() && old(self).port.rx_stalls() <= old(
                    self,
                ).timer.budget(timeout_ms) && f < s.len() && f <= room) ==> (r matches Ok(_))
            }),
    {
        read_until(&mut self.port, &mut self.timer, delim, buf, self.capacity, timeout_ms)
    }

    /// Read exactly `count` bytes, as [`read_exact`] does.
    pub fn read_exact(&mut self, count: usize, timeout_ms: u32) -> (r: Result<Vec<u8>, Error>)
        ensures
            final(self).capacity == old(self).capacity,
            final(self).port.sent() == old(self).port.sent(),
            final(self).port.rx_ok() == old(self).port.rx_ok(),
            final(self).port.tx_ok() == old(self).port.tx_ok(),
            final(self).port.rx_stalls() <= old(self).port.rx_stalls(),
            forall|ms: u32| final(self).timer.budget(ms) == old(self).timer.budget(ms),
            ({
                let s = old(self).port.incoming();
                match r {
                    Ok(data) => {
                        &&& data@.len() == count
                        &&& count <= s.len()
                        &&& data@ == s.take(count as int)
                        &&& final(self).port.incoming() == s.skip(count as int)
                    },
                    Err(Error::Timeout) => final(self).timer.ticks_left() == 0,
                    Err(Error::ReadError) => !old(self).port.rx_ok(),
                    Err(_) => false,
                }
            }),
            (old(self).port.rx_ok() && old(self).port.rx_stalls() <= old(
                self,
            ).timer.budget(timeout_ms) && old(self).port.incoming().len() >= count) ==> (
            r matches Ok(_)),
    {
        read_exact(&mut self.port, &mut self.timer, count, timeout_ms)
    }
}

} // verus!
