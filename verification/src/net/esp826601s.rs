//! Driver for an ESP8266-01S Wi-Fi modem speaking the textual AT command
//! set over a byte channel.
//!
//! A request writes one command (terminated by `\r\n`) and then reads reply
//! lines, bounded by the timer, until a terminal line arrives: a line
//! starting with `OK` ends the request successfully, `ERROR` ends it with
//! the device's reply text as the error payload, and `busy` makes the driver
//! re-issue the whole command, at most [`MAX_ATTEMPTS`] times in all.  Every
//! other line is informational and is accumulated into the reply.
//!
//! The whole exchange is modelled by the spec function [`exchange`], which
//! maps the channel's pending byte stream to the outcome the driver must
//! produce; the driver's contracts promise exactly that outcome whenever the
//! channel and timer are well-behaved for the request's time budget
//! ([`Esp8266::responsive`]).

use vstd::prelude::*;
use vstd::string::StringSliceAdditionalSpecFns;

use crate::io::{find_byte, lemma_find_byte, read_exact, read_line, write_all, Error, NL};
use crate::port::{Channel, CountdownTimer};

verus! {

/// Longest reply line the driver accepts, in bytes, the `\n` excluded.
pub const LINE_CAPACITY: usize = 128;

/// Longest accumulated reply the driver returns, in bytes.
pub const REPLY_CAPACITY: usize = 256;

/// How many times one request may be issued in all before the driver gives
/// up with [`Error::Busy`]: the first attempt plus the re-issues provoked by
/// `busy` replies.
pub const MAX_ATTEMPTS: usize = 5;

/// Marker that ends a request successfully when it prefixes a reply line.
pub open spec fn ok_marker() -> Seq<u8> {
    "OK".spec_bytes()
}

/// Marker that ends a request as rejected by the device.
pub open spec fn error_marker() -> Seq<u8> {
    "ERROR".spec_bytes()
}

/// Marker by which the device asks for the request to be re-issued.
pub open spec fn busy_marker() -> Seq<u8> {
    "busy".spec_bytes()
}

/// How one request must end, given the channel's pending bytes.
pub enum Verdict {
    /// A reply line started with `OK`; the payload is the accumulated reply
    /// text, the terminal line included.
    Accepted(Seq<u8>),
    /// A reply line started with `ERROR`; the payload is the accumulated
    /// reply text, the terminal line included.
    Rejected(Seq<u8>),
    /// A reply line exceeded [`LINE_CAPACITY`].
    LineOverflow,
    /// The accumulated reply would have exceeded [`REPLY_CAPACITY`].
    ReplyOverflow,
    /// The stream ended without a terminal line.
    NoTerminal,
    /// Every permitted attempt was answered with `busy`.
    BusyExhausted,
}

/// Result of running one request against a byte stream: its verdict, the
/// bytes the request leaves in the channel, and how many times the command
/// text was written.
pub struct Exchange {
    /// How the request ends.
    pub verdict: Verdict,
    /// The bytes left in the channel afterwards.
    pub rest: Seq<u8>,
    /// How many times the command was issued.
    pub rounds: nat,
}

/// `cmd` written `n` times over.
pub open spec fn repeat_bytes(cmd: Seq<u8>, n: nat) -> Seq<u8>
    decreases n,
{
    if n == 0 {
        Seq::empty()
    } else {
        cmd + repeat_bytes(cmd, (n - 1) as nat)
    }
}

/// The request state machine over a byte stream `s`, with reply text `acc`
/// accumulated so far and `tries` attempts left (counting the current one).
///
/// Each step splits the first line off `s` and classifies it by its prefix;
/// informational lines are accumulated (re-terminated with `\n`), `busy`
/// restarts the exchange on the remaining stream with a fresh accumulator.
pub open spec fn exchange(s: Seq<u8>, acc: Seq<u8>, tries: nat) -> Exchange
    decreases s.len(),
    via exchange_terminates
{
    let f = find_byte(s, NL);
    if f > LINE_CAPACITY {
        Exchange { verdict: Verdict::LineOverflow, rest: s.skip(LINE_CAPACITY + 1), rounds: 1 }
    } else if f >= s.len() {
        Exchange { verdict: Verdict::NoTerminal, rest: Seq::empty(), rounds: 1 }
    } else {
        let line = s.take(f);
        let rest = s.skip(f + 1);
        if ok_marker().is_prefix_of(line) {
            if acc.len() + line.len() + 1 > REPLY_CAPACITY {
                Exchange { verdict: Verdict::ReplyOverflow, rest, rounds: 1 }
            } else {
                Exchange { verdict: Verdict::Accepted(acc + line + seq![NL]), rest, rounds: 1 }
            }
        } else if error_marker().is_prefix_of(line) {
            if acc.len() + line.len() + 1 > REPLY_CAPACITY {
                Exchange { verdict: Verdict::ReplyOverflow, rest, rounds: 1 }
            } else {
                Exchange { verdict: Verdict::Rejected(acc + line + seq![NL]), rest, rounds: 1 }
            }
        } else if busy_marker().is_prefix_of(line) {
            if tries <= 1 {
                Exchange { verdict: Verdict::BusyExhausted, rest, rounds: 1 }
            } else {
                let e = exchange(rest, Seq::empty(), (tries - 1) as nat);
                Exchange { verdict: e.verdict, rest: e.rest, rounds: 1 + e.rounds }
            }
        } else {
            if acc.len() + line.len() + 1 > REPLY_CAPACITY {
                Exchange { verdict: Verdict::ReplyOverflow, rest, rounds: 1 }
            } else {
                exchange(rest, acc + line + seq![NL], tries)
            }
        }
    }
}

#[via_fn]
proof fn exchange_terminates(s: Seq<u8>, acc: Seq<u8>, tries: nat) {
    lemma_find_byte(s, NL);
}

/// The busy-retry is bounded: an exchange with `tries` attempts permitted
/// issues the command at least once and at most `tries` times, whatever the
/// device sends.
pub proof fn lemma_rounds_bounded(s: Seq<u8>, acc: Seq<u8>, tries: nat)
    requires
        tries >= 1,
    ensures
        1 <= exchange(s, acc, tries).rounds <= tries,
    decreases s.len(),
{
    lemma_find_byte(s, NL);
    let f = find_byte(s, NL);
    if f <= LINE_CAPACITY && f < s.len() {
        let line = s.take(f);
        let rest = s.skip(f + 1);
        if !ok_marker().is_prefix_of(line) && !error_marker().is_prefix_of(line) {
            if busy_marker().is_prefix_of(line) {
                if tries > 1 {
                    lemma_rounds_bounded(rest, Seq::empty(), (tries - 1) as nat);
                }
            } else {
                if acc.len() + line.len() + 1 <= REPLY_CAPACITY {
                    lemma_rounds_bounded(rest, acc + line + seq![NL], tries);
                }
            }
        }
    }
}

/// The decimal digits of `n`, as ASCII bytes, most significant first.
pub open spec fn dec_digits(n: nat) -> Seq<u8>
    decreases n,
{
    if n < 10 {
        seq![(48 + n) as u8]
    } else {
        dec_digits(n / 10) + seq![(48 + n % 10) as u8]
    }
}

/// Command text for joining an access point.
pub open spec fn join_cmd(ssid: Seq<u8>, password: Seq<u8>) -> Seq<u8> {
    "AT+CWJAP_DEF=\"".spec_bytes() + ssid + "\",\"".spec_bytes() + password
        + "\"\r\n".spec_bytes()
}

/// Command text for persisting or clearing auto-join.
pub open spec fn autoconn_cmd(autoconnect: bool) -> Seq<u8> {
    if autoconnect {
        "AT+CWAUTOCONN=1\r\n".spec_bytes()
    } else {
        "AT+CWAUTOCONN=0\r\n".spec_bytes()
    }
}

/// Command text for pinging a host.
pub open spec fn ping_cmd(domain: Seq<u8>) -> Seq<u8> {
    "AT+PING=\"".spec_bytes() + domain + "\"\r\n".spec_bytes()
}

/// Command text for resolving a name.
pub open spec fn resolve_cmd(domain: Seq<u8>) -> Seq<u8> {
    "AT+CIPDOMAIN=\"".spec_bytes() + domain + "\"\r\n".spec_bytes()
}

/// Command text for opening a TCP session.
pub open spec fn connect_cmd(host: Seq<u8>, tcp_port: Seq<u8>) -> Seq<u8> {
    "AT+CIPSTART=\"TCP\",\"".spec_bytes() + host + "\",".spec_bytes() + tcp_port
        + "\r\n".spec_bytes()
}

/// Command text announcing a payload of `n` bytes.
pub open spec fn send_cmd(n: nat) -> Seq<u8> {
    "AT+CIPSEND=".spec_bytes() + dec_digits(n) + "\r\n".spec_bytes()
}

/// Command text requesting `n` bytes of buffered received data.
pub open spec fn recv_cmd(n: nat) -> Seq<u8> {
    "AT+CIPRECVDATA=".spec_bytes() + dec_digits(n) + "\r\n".spec_bytes()
}

/// Marker confirming a payload transmission.
pub open spec fn send_ok_marker() -> Seq<u8> {
    "SEND OK".spec_bytes()
}

/// Marker refusing a payload transmission.
pub open spec fn send_fail_marker() -> Seq<u8> {
    "SEND FAIL".spec_bytes()
}

/// How the reply lines after a payload transmission end.
pub enum SendStatus {
    /// A line started with `SEND OK` or `OK`.
    Confirmed,
    /// A line started with `SEND FAIL` or `ERROR`.
    Refused,
    /// A reply line exceeded [`LINE_CAPACITY`].
    LineOverflow,
    /// The stream ended without a terminal line.
    NoReply,
}

/// Result of scanning the reply lines after a payload transmission.
pub struct SendCheck {
    /// How the scan ends.
    pub status: SendStatus,
    /// The bytes left in the channel afterwards.
    pub rest: Seq<u8>,
}

/// Scan reply lines after a payload transmission until one confirms or
/// refuses it; other lines are skipped without being accumulated.
pub open spec fn send_verdict(s: Seq<u8>) -> SendCheck
    decreases s.len(),
    via send_verdict_terminates
{
    let f = find_byte(s, NL);
    if f > LINE_CAPACITY {
        SendCheck { status: SendStatus::LineOverflow, rest: s.skip(LINE_CAPACITY + 1) }
    } else if f >= s.len() {
        SendCheck { status: SendStatus::NoReply, rest: Seq::empty() }
    } else {
        let line = s.take(f);
        let rest = s.skip(f + 1);
        if send_ok_marker().is_prefix_of(line) || ok_marker().is_prefix_of(line) {
            SendCheck { status: SendStatus::Confirmed, rest }
        } else if send_fail_marker().is_prefix_of(line) || error_marker().is_prefix_of(line) {
            SendCheck { status: SendStatus::Refused, rest }
        } else {
            send_verdict(rest)
        }
    }
}

#[via_fn]
proof fn send_verdict_terminates(s: Seq<u8>) {
    lemma_find_byte(s, NL);
}

/// How a request's return value must reflect a verdict.
pub open spec fn reply_matches(v: Verdict, r: Result<Vec<u8>, Error>) -> bool {
    match v {
        Verdict::Accepted(t) => r matches Ok(reply) && reply@ == t,
        Verdict::Rejected(t) => r matches Err(Error::Other(reply)) && reply@ == t,
        Verdict::LineOverflow => r matches Err(Error::BufferFull),
        Verdict::ReplyOverflow => r matches Err(Error::BufferFull),
        Verdict::NoTerminal => r matches Err(Error::Timeout),
        Verdict::BusyExhausted => r matches Err(Error::Busy),
    }
}

/// Does `line` start with `prefix`?
fn starts_with(line: &Vec<u8>, prefix: &[u8]) -> (r: bool)
    ensures
        r == prefix@.is_prefix_of(line@),
{
    if prefix.len() > line.len() {
        return false;
    }
    let mut i: usize = 0;
    while i < prefix.len()
        invariant
            i <= prefix.len() <= line.len(),
            forall|j: int| 0 <= j < i ==> line@[j] == prefix@[j],
        decreases prefix.len() - i,
    {
        if line[i] != prefix[i] {
            return false;
        }
        i = i + 1;
    }
    proof {
        assert(prefix@ =~= line@.subrange(0, prefix@.len() as int));
    }
    true
}

/// Append all of `s` to `v`.
fn push_bytes(v: &mut Vec<u8>, s: &[u8])
    ensures
        final(v)@ == old(v)@ + s@,
{
    let mut i: usize = 0;
    while i < s.len()
        invariant
            i <= s.len(),
            v@ == old(v)@ + s@.take(i as int),
        decreases s.len() - i,
    {
        let b = s[i];
        v.push(b);
        i = i + 1;
        proof {
            assert(v@ =~= old(v)@ + s@.take(i as int));
        }
    }
    proof {
        assert(old(v)@ + s@.take(s@.len() as int) =~= old(v)@ + s@);
    }
}

/// Append `line` and a terminating `\n` to the accumulator.
fn push_line(acc: &mut Vec<u8>, line: &Vec<u8>)
    ensures
        final(acc)@ == old(acc)@ + line@ + seq![NL],
{
    let mut i: usize = 0;
    while i < line.len()
        invariant
            i <= line.len(),
            acc@ == old(acc)@ + line@.take(i as int),
        decreases line.len() - i,
    {
        let b = line[i];
        acc.push(b);
        i = i + 1;
        proof {
            assert(acc@ =~= old(acc)@ + line@.take(i as int));
        }
    }
    acc.push(NL);
    proof {
        assert(acc@ =~= old(acc)@ + line@ + seq![NL]);
    }
}

/// Append the decimal digits of `n` to `v`.
fn format_into(n: usize, v: &mut Vec<u8>)
    ensures
        final(v)@ == old(v)@ + dec_digits(n as nat),
    decreases n,
{
    if n < 10 {
        let d: u8 = 48 + (n as u8);
        v.push(d);
        proof {
            assert(v@ =~= old(v)@ + dec_digits(n as nat));
        }
    } else {
        assert(n / 10 < n) by (nonlinear_arith)
            requires
                n >= 10,
        ;
        format_into(n / 10, v);
        let d: u8 = 48 + ((n % 10) as u8);
        v.push(d);
        proof {
            assert((48 + (n as nat) % 10) as u8 == d);
            assert(v@ =~= old(v)@ + dec_digits(n as nat));
        }
    }
}

/// An ESP8266 modem on a byte channel, with a timer bounding every read.
pub struct Esp8266<T, TIM> {
    /// The duplex channel the modem is wired to.
    pub port: T,
    /// The timer bounding each reply line.
    pub timer: TIM,
}

impl<T: Channel, TIM: CountdownTimer> Esp8266<T, TIM> {
    /// The channel and timer are well-behaved for a request with this time
    /// budget: both channel sides are healthy, and the timer's poll budget
    /// for the request's timeout covers every stall of the receive side.
    pub open spec fn responsive(self, timeout_ms: u32) -> bool {
        &&& self.port.rx_ok()
        &&& self.port.tx_ok()
        &&& self.port.rx_stalls() <= self.timer.budget(timeout_ms)
    }

    /// What a finished request guarantees: the state machine's verdict over
    /// the bytes the channel held at the start, its leftover stream, and the
    /// command echoed once per attempt.
    pub open spec fn requested(pre: Self, post: Self, cmd: Seq<u8>, r: Result<Vec<u8>, Error>) -> bool {
        let ex = exchange(pre.port.incoming(), Seq::empty(), MAX_ATTEMPTS as nat);
        &&& post.port.incoming() == ex.rest
        &&& post.port.sent() == pre.port.sent() + repeat_bytes(cmd, ex.rounds)
        &&& reply_matches(ex.verdict, r)
    }

    /// Every operation leaves the channel's health flags as they were, never
    /// increases the receive side's stall budget, and leaves the timer's
    /// poll budgets unchanged.
    pub open spec fn preserves_health(pre: Self, post: Self) -> bool {
        &&& post.port.rx_ok() == pre.port.rx_ok()
        &&& post.port.tx_ok() == pre.port.tx_ok()
        &&& post.port.rx_stalls() <= pre.port.rx_stalls()
        &&& forall|ms: u32| post.timer.budget(ms) == pre.timer.budget(ms)
    }

    /// Transport errors are only ever reported when the matching channel
    /// side really is unhealthy.
    pub open spec fn fault_implied(pre: Self, r: Result<Vec<u8>, Error>) -> bool {
        &&& (r matches Err(Error::WriteError)) ==> !pre.port.tx_ok()
        &&& (r matches Err(Error::ReadError)) ==> !pre.port.rx_ok()
    }

    /// Wrap a channel and a timer into a driver.
    pub fn new(port: T, timer: TIM) -> (r: Self)
        ensures
            r.port == port,
            r.timer == timer,
    {
        Esp8266 { port, timer }
    }

    /// Write all of `buf` to the channel.
    pub fn write_exact(&mut self, buf: &[u8]) -> (r: Result<usize, Error>)
        ensures
            final(self).timer == old(self).timer,
            final(self).port.incoming() == old(self).port.incoming(),
            final(self).port.rx_stalls() == old(self).port.rx_stalls(),
            final(self).port.rx_ok() == old(self).port.rx_ok(),
            final(self).port.tx_ok() == old(self).port.tx_ok(),
            match r {
                Ok(n) => n == buf@.len() && final(self).port.sent() == old(self).port.sent()
                    + buf@,
                Err(Error::WriteError) => !old(self).port.tx_ok(),
                Err(_) => false,
            },
            old(self).port.tx_ok() ==> (r matches Ok(_)),
    {
        if write_all(&mut self.port, buf) {
            Ok(buf.len())
        } else {
            Err(Error::WriteError)
        }
    }

    /// Issue `cmd` and read reply lines until a terminal line, re-issuing on
    /// `busy` with `tries` attempts left in all.
    fn request_attempts(&mut self, cmd: &[u8], timeout_ms: u32, tries: usize) -> (r: Result<
        Vec<u8>,
        Error,
    >)
        requires
            tries >= 1,
        ensures
            final(self).port.rx_ok() == old(self).port.rx_ok(),
            final(self).port.tx_ok() == old(self).port.tx_ok(),
            final(self).port.rx_stalls() <= old(self).port.rx_stalls(),
            forall|ms: u32| final(self).timer.budget(ms) == old(self).timer.budget(ms),
            old(self).responsive(timeout_ms) ==> ({
                let ex = exchange(old(self).port.incoming(), Seq::empty(), tries as nat);
                &&& final(self).port.incoming() == ex.rest
                &&& final(self).port.sent() == old(self).port.sent() + repeat_bytes(
                    cmd@,
                    ex.rounds,
                )
                &&& reply_matches(ex.verdict, r)
            }),
            (r matches Err(Error::WriteError)) ==> !old(self).port.tx_ok(),
            (r matches Err(Error::ReadError)) ==> !old(self).port.rx_ok(),
        decreases tries,
    {
        let ghost s0 = old(self).port.incoming();
        let ghost sent0 = old(self).port.sent();
        if !write_all(&mut self.port, cmd) {
            return Err(Error::WriteError);
        }
        let mut acc: Vec<u8> = Vec::new();
        loop
            invariant
                tries >= 1,
                s0 == old(self).port.incoming(),
                sent0 == old(self).port.sent(),
                acc@.len() <= REPLY_CAPACITY,
                self.port.rx_ok() == old(self).port.rx_ok(),
                self.port.tx_ok() == old(self).port.tx_ok(),
                self.port.rx_stalls() <= old(self).port.rx_stalls(),
                self.port.sent() == sent0 + cmd@,
                forall|ms: u32| self.timer.budget(ms) == old(self).timer.budget(ms),
                old(self).responsive(timeout_ms) ==> self.responsive(timeout_ms),
                old(self).responsive(timeout_ms) ==> exchange(s0, Seq::empty(), tries as nat)
                    == exchange(self.port.incoming(), acc@, tries as nat),
            decreases self.port.incoming().len(),
        {
            let ghost cur = self.port.incoming();
            let ghost acc_pre = acc@;
            match read_line(&mut self.port, &mut self.timer, LINE_CAPACITY, timeout_ms) {
                Err(e) => {
                    proof {
                        lemma_round_closes(cmd@, sent0);
                        if old(self).responsive(timeout_ms) {
                            let f = find_byte(cur, NL);
                            lemma_find_byte(cur, NL);
                            match e {
                                Error::BufferFull => {
                                    assert(f > LINE_CAPACITY);
                                },
                                Error::Timeout => {
                                    assert(f >= cur.len());
                                },
                                Error::ReadError => {
                                    assert(false);
                                },
                                _ => {
                                    assert(false);
                                },
                            }
                        }
                    }
                    return Err(e);
                },
                Ok(line) => {
                    proof {
                        lemma_find_byte(cur, NL);
                        assert(line@ == cur.take(find_byte(cur, NL)));
                        assert(line@.len() <= LINE_CAPACITY);
                    }
                    if starts_with(&line, "OK".as_bytes()) {
                        if acc.len() + line.len() + 1 > REPLY_CAPACITY {
                            proof {
                                lemma_round_closes(cmd@, sent0);
                            }
                            return Err(Error::BufferFull);
                        }
                        push_line(&mut acc, &line);
                        proof {
                            lemma_round_closes(cmd@, sent0);
                            assert(acc@ =~= acc_pre + line@ + seq![NL]);
                        }
                        return Ok(acc);
                    }
                    if starts_with(&line, "ERROR".as_bytes()) {
                        if acc.len() + line.len() + 1 > REPLY_CAPACITY {
                            proof {
                                lemma_round_closes(cmd@, sent0);
                            }
                            return Err(Error::BufferFull);
                        }
                        push_line(&mut acc, &line);
                        proof {
                            lemma_round_closes(cmd@, sent0);
                        }
                        return Err(Error::Other(acc));
                    }
                    if starts_with(&line, "busy".as_bytes()) {
                        if tries == 1 {
                            proof {
                                lemma_round_closes(cmd@, sent0);
                            }
                            return Err(Error::Busy);
                        }
                        let r = self.request_attempts(cmd, timeout_ms, tries - 1);
                        proof {
                            if old(self).responsive(timeout_ms) {
                                let e = exchange(cur.skip(find_byte(cur, NL) + 1), Seq::empty(), (
                                tries - 1) as nat);
                                assert((sent0 + cmd@) + repeat_bytes(cmd@, e.rounds) =~= sent0 + (
                                cmd@ + repeat_bytes(cmd@, e.rounds)));
                                assert(repeat_bytes(cmd@, 1 + e.rounds) == cmd@ + repeat_bytes(
                                    cmd@,
                                    e.rounds,
                                ));
                            }
                        }
                        return r;
                    }
                    if acc.len() + line.len() + 1 > REPLY_CAPACITY {
                        proof {
                            lemma_round_closes(cmd@, sent0);
                        }
                        return Err(Error::BufferFull);
                    }
                    push_line(&mut acc, &line);
                    proof {
                        assert(acc@ =~= acc_pre + line@ + seq![NL]);
                    }
                },
            }
        }
    }

    /// Issue one AT command and return the device's accumulated reply.
    pub fn request(&mut self, cmd: &[u8], timeout_ms: u32) -> (r: Result<Vec<u8>, Error>)
        ensures
            Self::preserves_health(*old(self), *final(self)),
            Self::fault_implied(*old(self), r),
            old(self).responsive(timeout_ms) ==> Self::requested(
                *old(self),
                *final(self),
                cmd@,
                r,
            ),
    {
        self.request_attempts(cmd, timeout_ms, MAX_ATTEMPTS)
    }

    /// Liveness check: send `AT` and await the terminal line.
    pub fn hello(&mut self) -> (r: Result<Vec<u8>, Error>)
        ensures
            Self::preserves_health(*old(self), *final(self)),
            Self::fault_implied(*old(self), r),
            old(self).responsive(5000) ==> Self::requested(
                *old(self),
                *final(self),
                "AT\r\n".spec_bytes(),
                r,
            ),
    {
        self.request("AT\r\n".as_bytes(), 5000)
    }

    /// Query the firmware banner with `AT+GMR`.
    pub fn device_info(&mut self) -> (r: Result<Vec<u8>, Error>)
        ensures
            Self::preserves_health(*old(self), *final(self)),
            Self::fault_implied(*old(self), r),
            old(self).responsive(5000) ==> Self::requested(
                *old(self),
                *final(self),
                "AT+GMR\r\n".spec_bytes(),
                r,
            ),
    {
        self.request("AT+GMR\r\n".as_bytes(), 5000)
    }

    /// Reset the device with `AT+RST`.
    pub fn reset(&mut self) -> (r: Result<Vec<u8>, Error>)
        ensures
            Self::preserves_health(*old(self), *final(self)),
            Self::fault_implied(*old(self), r),
            old(self).responsive(5000) ==> Self::requested(
                *old(self),
                *final(self),
                "AT+RST\r\n".spec_bytes(),
                r,
            ),
    {
        self.request("AT+RST\r\n".as_bytes(), 5000)
    }

    /// Restore factory settings with `AT+RESTORE`.
    pub fn restore(&mut self) -> (r: Result<Vec<u8>, Error>)
        ensures
            Self::preserves_health(*old(self), *final(self)),
            Self::fault_implied(*old(self), r),
            old(self).responsive(5000) ==> Self::requested(
                *old(self),
                *final(self),
                "AT+RESTORE\r\n".spec_bytes(),
                r,
            ),
    {
        self.request("AT+RESTORE\r\n".as_bytes(), 5000)
    }

    /// Leave the current access point with `AT+CWQAP`.
    pub fn hangup(&mut self) -> (r: Result<Vec<u8>, Error>)
        ensures
            Self::preserves_health(*old(self), *final(self)),
            Self::fault_implied(*old(self), r),
            old(self).responsive(5000) ==> Self::requested(
                *old(self),
                *final(self),
                "AT+CWQAP\r\n".spec_bytes(),
                r,
            ),
    {
        self.request("AT+CWQAP\r\n".as_bytes(), 5000)
    }

    /// Query the connection state with `AT+CIPSTATUS`.
    pub fn net_state(&mut self) -> (r: Result<Vec<u8>, Error>)
        ensures
            Self::preserves_health(*old(self), *final(self)),
            Self::fault_implied(*old(self), r),
            old(self).responsive(5000) ==> Self::requested(
                *old(self),
                *final(self),
                "AT+CIPSTATUS\r\n".spec_bytes(),
                r,
            ),
    {
        self.request("AT+CIPSTATUS\r\n".as_bytes(), 5000)
    }

    /// Close the TCP session with `AT+CIPCLOSE`.
    pub fn disconnect(&mut self) -> (r: Result<Vec<u8>, Error>)
        ensures
            Self::preserves_health(*old(self), *final(self)),
            Self::fault_implied(*old(self), r),
            old(self).responsive(5000) ==> Self::requested(
                *old(self),
                *final(self),
                "AT+CIPCLOSE\r\n".spec_bytes(),
                r,
            ),
    {
        self.request("AT+CIPCLOSE\r\n".as_bytes(), 5000)
    }

    /// Ping `domain` with `AT+PING="domain"`.
    pub fn ping(&mut self, domain: &str) -> (r: Result<Vec<u8>, Error>)
        ensures
            Self::preserves_health(*old(self), *final(self)),
            Self::fault_implied(*old(self), r),
            old(self).responsive(5000) ==> Self::requested(
                *old(self),
                *final(self),
                ping_cmd(domain.spec_bytes()),
                r,
            ),
    {
        let mut cmd: Vec<u8> = Vec::new();
        push_bytes(&mut cmd, "AT+PING=\"".as_bytes());
        push_bytes(&mut cmd, domain.as_bytes());
        push_bytes(&mut cmd, "\"\r\n".as_bytes());
        proof {
            assert(cmd@ =~= ping_cmd(domain.spec_bytes()));
        }
        self.request(cmd.as_slice(), 5000)
    }

    /// Resolve `domain` with `AT+CIPDOMAIN="domain"`.
    pub fn reslove(&mut self, domain: &str) -> (r: Result<Vec<u8>, Error>)
        ensures
            Self::preserves_health(*old(self), *final(self)),
            Self::fault_implied(*old(self), r),
            old(self).responsive(5000) ==> Self::requested(
                *old(self),
                *final(self),
                resolve_cmd(domain.spec_bytes()),
                r,
            ),
    {
        let mut cmd: Vec<u8> = Vec::new();
        push_bytes(&mut cmd, "AT+CIPDOMAIN=\"".as_bytes());
        push_bytes(&mut cmd, domain.as_bytes());
        push_bytes(&mut cmd, "\"\r\n".as_bytes());
        proof {
            assert(cmd@ =~= resolve_cmd(domain.spec_bytes()));
        }
        self.request(cmd.as_slice(), 5000)
    }

    /// Open a TCP session to `addr` (host, decimal port text) with
    /// `AT+CIPSTART="TCP","host",port`.
    pub fn connect(&mut self, addr: (&str, &str)) -> (r: Result<Vec<u8>, Error>)
        ensures
            Self::preserves_health(*old(self), *final(self)),
            Self::fault_implied(*old(self), r),
            old(self).responsive(15000) ==> Self::requested(
                *old(self),
                *final(self),
                connect_cmd(addr.0.spec_bytes(), addr.1.spec_bytes()),
                r,
            ),
    {
        let mut cmd: Vec<u8> = Vec::new();
        push_bytes(&mut cmd, "AT+CIPSTART=\"TCP\",\"".as_bytes());
        push_bytes(&mut cmd, addr.0.as_bytes());
        push_bytes(&mut cmd, "\",".as_bytes());
        push_bytes(&mut cmd, addr.1.as_bytes());
        push_bytes(&mut cmd, "\r\n".as_bytes());
        proof {
            assert(cmd@ =~= connect_cmd(addr.0.spec_bytes(), addr.1.spec_bytes()));
        }
        self.request(cmd.as_slice(), 15000)
    }

    /// Join access point `ssid` with `password`, then persist or clear
    /// auto-join.  On success the reply of the join command is returned.
    pub fn dial(&mut self, ssid: &str, password: &str, autoconnect: bool) -> (r: Result<
        Vec<u8>,
        Error,
    >)
        ensures
            Self::preserves_health(*old(self), *final(self)),
            Self::fault_implied(*old(self), r),
            (old(self).responsive(15000) && old(self).responsive(5000)) ==> ({
                let ex1 = exchange(old(self).port.incoming(), Seq::empty(), MAX_ATTEMPTS as nat);
                let cmd1 = join_cmd(ssid.spec_bytes(), password.spec_bytes());
                if ex1.verdict matches Verdict::Accepted(_) {
                    let ex2 = exchange(ex1.rest, Seq::empty(), MAX_ATTEMPTS as nat);
                    &&& final(self).port.incoming() == ex2.rest
                    &&& final(self).port.sent() == old(self).port.sent() + repeat_bytes(
                        cmd1,
                        ex1.rounds,
                    ) + repeat_bytes(autoconn_cmd(autoconnect), ex2.rounds)
                    &&& (if ex2.verdict matches Verdict::Accepted(_) {
                        ex1.verdict matches Verdict::Accepted(t) && r matches Ok(v) && v@ == t
                    } else {
                        reply_matches(ex2.verdict, r)
                    })
                } else {
                    &&& final(self).port.incoming() == ex1.rest
                    &&& final(self).port.sent() == old(self).port.sent() + repeat_bytes(
                        cmd1,
                        ex1.rounds,
                    )
                    &&& reply_matches(ex1.verdict, r)
                }
            }),
    {
        let mut cmd: Vec<u8> = Vec::new();
        push_bytes(&mut cmd, "AT+CWJAP_DEF=\"".as_bytes());
        push_bytes(&mut cmd, ssid.as_bytes());
        push_bytes(&mut cmd, "\",\"".as_bytes());
        push_bytes(&mut cmd, password.as_bytes());
        push_bytes(&mut cmd, "\"\r\n".as_bytes());
        proof {
            assert(cmd@ =~= join_cmd(ssid.spec_bytes(), password.spec_bytes()));
        }
        let reply = match self.request(cmd.as_slice(), 15000) {
            Ok(v) => v,
            Err(e) => {
                return Err(e);
            },
        };
        let r2 = if autoconnect {
            self.request("AT+CWAUTOCONN=1\r\n".as_bytes(), 5000)
        } else {
            self.request("AT+CWAUTOCONN=0\r\n".as_bytes(), 5000)
        };
        match r2 {
            Ok(_) => Ok(reply),
            Err(e) => Err(e),
        }
    }

    /// Query the assigned addresses: `AT+CIFSR`, then `AT+CIPSTA_CUR?`,
    /// with both replies concatenated.
    pub fn ifconfig(&mut self) -> (r: Result<Vec<u8>, Error>)
        ensures
            Self::preserves_health(*old(self), *final(self)),
            Self::fault_implied(*old(self), r),
            old(self).responsive(5000) ==> ({
                let ex1 = exchange(old(self).port.incoming(), Seq::empty(), MAX_ATTEMPTS as nat);
                if ex1.verdict matches Verdict::Accepted(_) {
                    let ex2 = exchange(ex1.rest, Seq::empty(), MAX_ATTEMPTS as nat);
                    &&& final(self).port.incoming() == ex2.rest
                    &&& final(self).port.sent() == old(self).port.sent() + repeat_bytes(
                        "AT+CIFSR\r\n".spec_bytes(),
                        ex1.rounds,
                    ) + repeat_bytes("AT+CIPSTA_CUR?\r\n".spec_bytes(), ex2.rounds)
                    &&& (if ex2.verdict matches Verdict::Accepted(_) {
                        ex1.verdict matches Verdict::Accepted(t1) && ex2.verdict
                            matches Verdict::Accepted(t2) && r matches Ok(v) && v@ == t1 + t2
                    } else {
                        reply_matches(ex2.verdict, r)
                    })
                } else {
                    &&& final(self).port.incoming() == ex1.rest
                    &&& final(self).port.sent() == old(self).port.sent() + repeat_bytes(
                        "AT+CIFSR\r\n".spec_bytes(),
                        ex1.rounds,
                    )
                    &&& reply_matches(ex1.verdict, r)
                }
            }),
    {
        let mut reply1 = match self.request("AT+CIFSR\r\n".as_bytes(), 5000) {
            Ok(v) => v,
            Err(e) => {
                return Err(e);
            },
        };
        let reply2 = match self.request("AT+CIPSTA_CUR?\r\n".as_bytes(), 5000) {
            Ok(v) => v,
            Err(e) => {
                return Err(e);
            },
        };
        push_bytes(&mut reply1, reply2.as_slice());
        Ok(reply1)
    }

    /// Send `buf` over the open TCP session: announce its length with
    /// `AT+CIPSEND`, consume the single-byte data prompt, write the raw
    /// payload, then read lines until the device confirms or refuses it.
    pub fn send_data(&mut self, buf: &[u8]) -> (r: Result<usize, Error>)
        ensures
            Self::preserves_health(*old(self), *final(self)),
            (r matches Err(Error::ReadError)) ==> !old(self).port.rx_ok(),
            old(self).responsive(5000) ==> ({
                let ex1 = exchange(old(self).port.incoming(), Seq::empty(), MAX_ATTEMPTS as nat);
                let cmd = send_cmd(buf@.len() as nat);
                if ex1.verdict matches Verdict::Accepted(_) {
                    if ex1.rest.len() == 0 {
                        &&& (r matches Err(Error::Timeout))
                        &&& final(self).port.incoming() == Seq::<u8>::empty()
                        &&& final(self).port.sent() == old(self).port.sent() + repeat_bytes(
                            cmd,
                            ex1.rounds,
                        )
                    } else {
                        let sv = send_verdict(ex1.rest.skip(1));
                        &&& final(self).port.incoming() == sv.rest
                        &&& final(self).port.sent() == old(self).port.sent() + repeat_bytes(
                            cmd,
                            ex1.rounds,
                        ) + buf@
                        &&& match sv.status {
                            SendStatus::Confirmed => r matches Ok(n) && n == buf@.len(),
                            SendStatus::Refused => r matches Err(Error::WriteError),
                            SendStatus::LineOverflow => r matches Err(Error::BufferFull),
                            SendStatus::NoReply => r matches Err(Error::Timeout),
                        }
                    }
                } else {
                    &&& final(self).port.incoming() == ex1.rest
                    &&& final(self).port.sent() == old(self).port.sent() + repeat_bytes(
                        cmd,
                        ex1.rounds,
                    )
                    &&& match ex1.verdict {
                        Verdict::Rejected(t) => r matches Err(Error::Other(v)) && v@ == t,
                        Verdict::LineOverflow => r matches Err(Error::BufferFull),
                        Verdict::ReplyOverflow => r matches Err(Error::BufferFull),
                        Verdict::NoTerminal => r matches Err(Error::Timeout),
                        Verdict::BusyExhausted => r matches Err(Error::Busy),
                        Verdict::Accepted(_) => false,
                    }
                }
            }),
    {
        let ghost s0 = old(self).port.incoming();
        let ghost ex1g = exchange(s0, Seq::empty(), MAX_ATTEMPTS as nat);
        let ghost cmdspec = send_cmd(buf@.len() as nat);
        let mut cmd: Vec<u8> = Vec::new();
        push_bytes(&mut cmd, "AT+CIPSEND=".as_bytes());
        format_into(buf.len(), &mut cmd);
        push_bytes(&mut cmd, "\r\n".as_bytes());
        proof {
            assert(cmd@ =~= cmdspec);
        }
        match self.request(cmd.as_slice(), 5000) {
            Ok(_) => (),
            Err(e) => {
                return Err(e);
            },
        }
        match read_exact(&mut self.port, &mut self.timer, 1, 5000) {
            Ok(_prompt) => (),
            Err(e) => {
                return Err(e);
            },
        }
        if !write_all(&mut self.port, buf) {
            return Err(Error::WriteError);
        }
        let ghost ap = ex1g.rest.skip(1);
        loop
            invariant
                s0 == old(self).port.incoming(),
                ex1g == exchange(s0, Seq::empty(), MAX_ATTEMPTS as nat),
                cmdspec == send_cmd(buf@.len() as nat),
                ap == ex1g.rest.skip(1),
                self.port.rx_ok() == old(self).port.rx_ok(),
                self.port.tx_ok() == old(self).port.tx_ok(),
                self.port.rx_stalls() <= old(self).port.rx_stalls(),
                forall|ms: u32| self.timer.budget(ms) == old(self).timer.budget(ms),
                old(self).responsive(5000) ==> ({
                    &&& self.responsive(5000)
                    &&& (ex1g.verdict matches Verdict::Accepted(_))
                    &&& ex1g.rest.len() > 0
                    &&& send_verdict(ap) == send_verdict(self.port.incoming())
                    &&& self.port.sent() == old(self).port.sent() + repeat_bytes(
                        cmdspec,
                        ex1g.rounds,
                    ) + buf@
                }),
            decreases self.port.incoming().len(),
        {
            let ghost cur = self.port.incoming();
            match read_line(&mut self.port, &mut self.timer, LINE_CAPACITY, 5000) {
                Err(e) => {
                    proof {
                        if old(self).responsive(5000) {
                            let f = find_byte(cur, NL);
                            lemma_find_byte(cur, NL);
                            match e {
                                Error::BufferFull => {
                                    assert(f > LINE_CAPACITY);
                                },
                                Error::Timeout => {
                                    assert(f >= cur.len());
                                },
                                Error::ReadError => {
                                    assert(false);
                                },
                                _ => {
                                    assert(false);
                                },
                            }
                        }
                    }
                    return Err(e);
                },
                Ok(line) => {
                    proof {
                        lemma_find_byte(cur, NL);
                        assert(line@ == cur.take(find_byte(cur, NL)));
                    }
                    let confirmed = starts_with(&line, "SEND OK".as_bytes()) || starts_with(
                        &line,
                        "OK".as_bytes(),
                    );
                    if confirmed {
                        return Ok(buf.len());
                    }
                    let refused = starts_with(&line, "SEND FAIL".as_bytes()) || starts_with(
                        &line,
                        "ERROR".as_bytes(),
                    );
                    if refused {
                        return Err(Error::WriteError);
                    }
                },
            }
        }
    }

    /// Request `len` bytes of buffered received data with
    /// `AT+CIPRECVDATA=len`.
    pub fn read_data(&mut self, len: usize) -> (r: Result<Vec<u8>, Error>)
        ensures
            Self::preserves_health(*old(self), *final(self)),
            Self::fault_implied(*old(self), r),
            old(self).responsive(5000) ==> Self::requested(
                *old(self),
                *final(self),
                recv_cmd(len as nat),
                r,
            ),
    {
        let mut cmd: Vec<u8> = Vec::new();
        push_bytes(&mut cmd, "AT+CIPRECVDATA=".as_bytes());
        format_into(len, &mut cmd);
        push_bytes(&mut cmd, "\r\n".as_bytes());
        proof {
            assert(cmd@ =~= recv_cmd(len as nat));
        }
        self.request(cmd.as_slice(), 5000)
    }
}

/// A closed round writes the command once: `repeat_bytes(cmd, 1)` is `cmd`.
proof fn lemma_round_closes(cmd: Seq<u8>, sent0: Seq<u8>)
    ensures
        sent0 + repeat_bytes(cmd, 1) == sent0 + cmd,
{
    assert(repeat_bytes(cmd, 0nat) =~= Seq::<u8>::empty());
    assert(repeat_bytes(cmd, 1) =~= cmd);
}

} // verus!
