//! Collaborator interfaces of the board-support core: a duplex byte channel
//! and a countdown timer.
//!
//! The core never touches hardware directly.  Everything it needs from the
//! outside world is captured by these two traits, which an adapter implements
//! over a UART and a hardware timer on the target, or over scripted buffers on
//! a host.
//!
//! Both traits carry a ghost model.  A channel is modelled by the sequence of
//! bytes it will deliver (`incoming`), the bytes written into it so far
//! (`sent`), a bound on how often a read may report "no byte yet" while data
//! is still owed (`rx_stalls`), and two health flags (`rx_ok`, `tx_ok`): a
//! healthy side never reports a fault.  A timer is modelled by the number of
//! polls an arming yields before it reports elapsed (`budget`) and the number
//! of polls left in the current arming (`ticks_left`).

use vstd::prelude::*;

verus! {

/// Outcome of one non-blocking read attempt on a [`Channel`].
pub enum ReadPoll {
    /// A byte was available and has been consumed from the channel.
    Ready(u8),
    /// No byte is available yet; trying again later may succeed.
    Pending,
    /// The receive side reported a hardware or transport fault.
    Fault,
}

/// A duplex byte-oriented serial channel: non-blocking single-byte reads and
/// blocking single-byte writes.
pub trait Channel {
    /// The bytes this channel will deliver to `read_byte`, in order.
    ///
    /// The default model, which an adapter left unverified inherits, owes
    /// nothing: no bytes, no health, no record of writes.  A channel whose
    /// behaviour is reasoned about overrides all five functions, as
    /// [`crate::sim::ScriptedPort`] does.
    open spec fn incoming(&self) -> Seq<u8> {
        Seq::empty()
    }

    /// How many more times a read may answer `Pending` while a byte of
    /// `incoming` is still owed.  Reads on an exhausted channel may always
    /// answer `Pending`.
    open spec fn rx_stalls(&self) -> nat {
        0
    }

    /// The receive side never reports a fault.
    open spec fn rx_ok(&self) -> bool {
        false
    }

    /// The bytes written into this channel so far, in order.
    open spec fn sent(&self) -> Seq<u8> {
        Seq::empty()
    }

    /// The transmit side never reports a fault.
    open spec fn tx_ok(&self) -> bool {
        false
    }

    /// Attempt to read one byte without blocking.
    fn read_byte(&mut self) -> (r: ReadPoll)
        ensures
            final(self).rx_ok() == old(self).rx_ok(),
            final(self).tx_ok() == old(self).tx_ok(),
            final(self).sent() == old(self).sent(),
            match r {
                ReadPoll::Ready(b) => {
                    &&& old(self).incoming().len() > 0
                    &&& b == old(self).incoming()[0]
                    &&& final(self).incoming() == old(self).incoming().skip(1)
                    &&& final(self).rx_stalls() == old(self).rx_stalls()
                },
                ReadPoll::Pending => {
                    &&& final(self).incoming() == old(self).incoming()
                    &&& old(self).incoming().len() == 0 || old(self).rx_stalls() > 0
                    &&& final(self).rx_stalls() == if old(self).rx_stalls() > 0 {
                        (old(self).rx_stalls() - 1) as nat
                    } else {
                        0nat
                    }
                },
                ReadPoll::Fault => {
                    &&& !old(self).rx_ok()
                    &&& final(self).incoming() == old(self).incoming()
                    &&& final(self).rx_stalls() == old(self).rx_stalls()
                },
            },
    ;

    /// Write one byte, blocking until the transmit side accepts it or
    /// reports a fault.  Returns `true` when the byte was written.
    fn write_byte(&mut self, b: u8) -> (ok: bool)
        ensures
            final(self).incoming() == old(self).incoming(),
            final(self).rx_stalls() == old(self).rx_stalls(),
            final(self).rx_ok() == old(self).rx_ok(),
            final(self).tx_ok() == old(self).tx_ok(),
            ok ==> final(self).sent() == old(self).sent().push(b),
            !ok ==> final(self).sent() == old(self).sent() && !old(self).tx_ok(),
    ;
}

/// A countdown timer polled by the read loops: armed with a duration, it
/// answers "not yet" a bounded number of times, then "elapsed".
pub trait CountdownTimer {
    /// How many `poll_elapsed` calls an arming with `timeout_ms` answers
    /// before reporting elapsed.  How wall time maps to polls is the
    /// implementation's affair; the model only says the number is fixed by
    /// the duration at arming time.
    ///
    /// The default model, which an adapter left unverified inherits, is a
    /// timer that is always elapsed; a timer whose behaviour is reasoned
    /// about overrides both functions, as [`crate::sim::ScriptedTimer`]
    /// does.
    open spec fn budget(&self, timeout_ms: u32) -> nat {
        0
    }

    /// Polls left before the current arming reports elapsed.
    open spec fn ticks_left(&self) -> nat {
        0
    }

    /// (Re-)arm the timer with the given duration.
    fn start(&mut self, timeout_ms: u32)
        ensures
            final(self).ticks_left() == old(self).budget(timeout_ms),
            forall|ms: u32| final(self).budget(ms) == old(self).budget(ms),
    ;

    /// Ask the timer whether the armed duration has passed.
    fn poll_elapsed(&mut self) -> (elapsed: bool)
        ensures
            elapsed == (old(self).ticks_left() == 0),
            final(self).ticks_left() == if old(self).ticks_left() > 0 {
                (old(self).ticks_left() - 1) as nat
            } else {
                0nat
            },
            forall|ms: u32| final(self).budget(ms) == old(self).budget(ms),
    ;
}

} // verus!
