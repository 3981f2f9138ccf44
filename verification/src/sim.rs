//! Scripted, host-side implementations of the collaborator interfaces.
//!
//! A [`ScriptedPort`] delivers a fixed byte sequence and records everything
//! written into it; a [`ScriptedTimer`] reports elapsed after a fixed number
//! of polls, whatever duration it is armed with.  Both satisfy the ghost
//! models of [`crate::port`], so code that is verified against those models
//! can be exercised on a host without any hardware.

use vstd::prelude::*;

use crate::port::{Channel, CountdownTimer, ReadPoll};

verus! {

/// A byte channel that replays a fixed feed and records what is written.
pub struct ScriptedPort {
    feed: Vec<u8>,
    cursor: usize,
    stalls: usize,
    rx_good: bool,
    tx_good: bool,
    written: Vec<u8>,
}

impl ScriptedPort {
    /// A port that will deliver `feed`, answering "no byte yet" `stalls`
    /// times first, and whose two sides report faults when the matching
    /// `good` flag is false.
    pub fn new(feed: Vec<u8>, stalls: usize, rx_good: bool, tx_good: bool) -> (p: Self)
        ensures
            p.incoming() == feed@,
            p.rx_stalls() == stalls as nat,
            p.rx_ok() == rx_good,
            p.tx_ok() == tx_good,
            p.sent() == Seq::<u8>::empty(),
    {
        let p = ScriptedPort { feed, cursor: 0, stalls, rx_good, tx_good, written: Vec::new() };
        proof {
            assert(p.feed@.skip(0) =~= p.feed@);
        }
        p
    }

    /// The bytes written into the port so far.
    pub fn written(&self) -> (r: &Vec<u8>)
        ensures
            r@ == self.sent(),
    {
        &self.written
    }

    /// How many bytes of the feed have not been delivered yet.
    pub fn remaining(&self) -> (r: usize)
        ensures
            r as nat == self.incoming().len(),
    {
        if self.cursor < self.feed.len() {
            self.feed.len() - self.cursor
        } else {
            0
        }
    }
}

impl Channel for ScriptedPort {
    closed spec fn incoming(&self) -> Seq<u8> {
        if self.cursor <= self.feed@.len() {
            self.feed@.skip(self.cursor as int)
        } else {
            Seq::empty()
        }
    }

    closed spec fn rx_stalls(&self) -> nat {
        self.stalls as nat
    }

    closed spec fn rx_ok(&self) -> bool {
        self.rx_good
    }

    closed spec fn sent(&self) -> Seq<u8> {
        self.written@
    }

    closed spec fn tx_ok(&self) -> bool {
        self.tx_good
    }

    fn read_byte(&mut self) -> (r: ReadPoll) {
        if !self.rx_good {
            ReadPoll::Fault
        } else if self.stalls > 0 {
            self.stalls = self.stalls - 1;
            ReadPoll::Pending
        } else if self.cursor < self.feed.len() {
            let b = self.feed[self.cursor];
            let ghost before = self.feed@.skip(self.cursor as int);
            self.cursor = self.cursor + 1;
            proof {
                assert(self.feed@.skip(self.cursor as int) =~= before.skip(1));
            }
            ReadPoll::Ready(b)
        } else {
            ReadPoll::Pending
        }
    }

    fn write_byte(&mut self, b: u8) -> (ok: bool) {
        if self.tx_good {
            self.written.push(b);
            true
        } else {
            false
        }
    }
}

/// A countdown timer that elapses after a fixed number of polls.
pub struct ScriptedTimer {
    rounds: u32,
    left: u32,
    polled: u64,
}

impl ScriptedTimer {
    /// A timer whose every arming yields `rounds` "not yet" answers before
    /// it reports elapsed, whatever duration it is armed with.
    pub fn new(rounds: u32) -> (t: Self)
        ensures
            forall|ms: u32| t.budget(ms) == rounds as nat,
            t.ticks_left() == rounds as nat,
    {
        ScriptedTimer { rounds, left: rounds, polled: 0 }
    }

    /// Diagnostic: how many times the timer has been polled in total
    /// (saturating).
    pub fn polled(&self) -> u64 {
        self.polled
    }
}

impl CountdownTimer for ScriptedTimer {
    closed spec fn budget(&self, timeout_ms: u32) -> nat {
        self.rounds as nat
    }

    closed spec fn ticks_left(&self) -> nat {
        self.left as nat
    }

    fn start(&mut self, timeout_ms: u32) {
        self.left = self.rounds;
    }

    fn poll_elapsed(&mut self) -> (elapsed: bool) {
        if self.polled < u64::MAX {
            self.polled = self.polled + 1;
        }
        if self.left == 0 {
            true
        } else {
            self.left = self.left - 1;
            false
        }
    }
}

} // verus!
