//! Data-plane engine: the decision core of the per-test transfer loop.
//!
//! The loop around a test's socket waits for whichever of three events
//! becomes ready first — readable, writable, or a control message — and
//! feeds the outcome to this state machine.  The state machine decides
//! whether the loop continues and how the interval counters change; the
//! socket calls and the select itself stay outside the library.

use vstd::prelude::*;

use crate::messages::Direction;
use crate::messages::Protocol;
use crate::messages::Role;
use crate::messages::TCPTestInfo;
use crate::messages::recv_allowed;
use crate::messages::send_allowed;
use crate::stats::IntervalResult;
use crate::stats::fresh_interval;

verus! {

/// A control request from the manager: take an interval snapshot, or stop
/// sending.  The reply channel for a snapshot lives with the caller.
#[derive(Debug, Clone, Copy, PartialEq, Eq, Structural)]
pub enum TestControlMessage {
    Done,
    GetIntervalResult,
}

/// The outcome of one non-blocking socket read or write, reduced to what
/// the engine decides on: `Transferred(n)` bytes moved, the call would have
/// blocked, or it failed with a fatal error.
#[derive(Debug, Clone, Copy, PartialEq, Eq, Structural)]
pub enum IoOutcome {
    Transferred(usize),
    WouldBlock,
    Failed,
}

/// Per-test engine state: the direction/role gating computed once, the
/// "sender finished" flag, and the accumulating interval window.
#[derive(Debug, Clone, Copy, PartialEq, Eq, Structural)]
pub struct EngineState {
    pub should_send: bool,
    pub should_recv: bool,
    pub is_done: bool,
    pub interval: IntervalResult,
}

impl EngineState {
    /// Fresh engine state for a test: gating from the direction/role table,
    /// not done, an interval window begun at `now`.
    pub fn new(direction: Direction, role: Role, now: u64) -> (r: EngineState)
        ensures
            r.should_send == send_allowed(direction, role),
            r.should_recv == recv_allowed(direction, role),
            !r.is_done,
            r.interval == fresh_interval(now),
    {
        EngineState {
            should_send: crate::messages::should_send(direction, role),
            should_recv: crate::messages::should_recv(direction, role),
            is_done: false,
            interval: IntervalResult::new_at(now),
        }
    }

    /// Decision on a read attempt: zero bytes mean the peer closed and the
    /// loop ends; would-block is a no-op retry; a fatal error ends the
    /// loop; received bytes are added to the window.  Returns whether the
    /// loop continues.
    pub fn on_read(&mut self, outcome: IoOutcome) -> (cont: bool)
        requires
            (outcome matches IoOutcome::Transferred(n)
                ==> old(self).interval.bytes_received.n + n <= u64::MAX),
        ensures
            match outcome {
                IoOutcome::Transferred(n) => {
                    if n == 0 {
                        !cont && *final(self) == *old(self)
                    } else {
                        &&& cont
                        &&& final(self).interval.bytes_received.n
                            == old(self).interval.bytes_received.n + n
                        &&& final(self).interval.bytes_sent == old(self).interval.bytes_sent
                        &&& final(self).interval.start == old(self).interval.start
                        &&& final(self).interval.end == old(self).interval.end
                        &&& final(self).is_done == old(self).is_done
                        &&& final(self).should_send == old(self).should_send
                        &&& final(self).should_recv == old(self).should_recv
                    }
                },
                IoOutcome::WouldBlock => cont && *final(self) == *old(self),
                IoOutcome::Failed => !cont && *final(self) == *old(self),
            },
    {
        match outcome {
            IoOutcome::Transferred(n) => {
                if n == 0 {
                    false
                } else {
                    self.interval.add_bytes_received(n);
                    true
                }
            },
            IoOutcome::WouldBlock => true,
            IoOutcome::Failed => false,
        }
    }

    /// Decision on a write attempt: once `Done` was received the sender
    /// stops; otherwise sent bytes are added to the window, would-block is
    /// a no-op retry, and a fatal error ends the loop.
    pub fn on_write(&mut self, outcome: IoOutcome) -> (cont: bool)
        requires
            outcome matches IoOutcome::Transferred(n) ==> (old(self).is_done || old(
                self,
            ).interval.bytes_sent.n + n <= u64::MAX),
        ensures
            old(self).is_done ==> !cont && *final(self) == *old(self),
            !old(self).is_done ==> match outcome {
                IoOutcome::Transferred(n) => {
                    &&& cont
                    &&& final(self).interval.bytes_sent.n == old(self).interval.bytes_sent.n + n
                    &&& final(self).interval.bytes_received == old(self).interval.bytes_received
                    &&& final(self).interval.start == old(self).interval.start
                    &&& final(self).interval.end == old(self).interval.end
                    &&& final(self).is_done == old(self).is_done
                    &&& final(self).should_send == old(self).should_send
                    &&& final(self).should_recv == old(self).should_recv
                },
                IoOutcome::WouldBlock => cont && *final(self) == *old(self),
                IoOutcome::Failed => !cont && *final(self) == *old(self),
            },
    {
        if self.is_done {
            return false;
        }
        match outcome {
            IoOutcome::Transferred(n) => {
                self.interval.add_bytes_sent(n);
                true
            },
            IoOutcome::WouldBlock => true,
            IoOutcome::Failed => false,
        }
    }

    /// Decision on a control message: a snapshot request atomically takes
    /// and resets the window (the reply to deliver is returned); `Done`
    /// sets the sender-finished flag; a closed channel changes nothing.
    pub fn on_control(&mut self, msg: Option<TestControlMessage>, now: u64) -> (reply: Option<
        IntervalResult,
    >)
        ensures
            match msg {
                Some(TestControlMessage::GetIntervalResult) => {
                    &&& reply == Some(IntervalResult { end: now, ..old(self).interval })
                    &&& final(self).interval == fresh_interval(now)
                    &&& final(self).is_done == old(self).is_done
                    &&& final(self).should_send == old(self).should_send
                    &&& final(self).should_recv == old(self).should_recv
                },
                Some(TestControlMessage::Done) => {
                    &&& reply is None
                    &&& *final(self) == (EngineState { is_done: true, ..*old(self) })
                },
                None => reply is None && *final(self) == *old(self),
            },
    {
        match msg {
            Some(TestControlMessage::GetIntervalResult) => {
                let snapshot = self.interval.take_at(now);
                Some(snapshot)
            },
            Some(TestControlMessage::Done) => {
                self.is_done = true;
                None
            },
            None => None,
        }
    }
}

/// The stub protocol variant: present in the data model, no data-plane
/// behaviour.
#[derive(Debug, Clone, Copy, PartialEq, Eq, Structural)]
pub struct UDPTest;

impl UDPTest {
    pub fn new() -> (r: Self)
        ensures
            r == UDPTest,
    {
        UDPTest
    }
}

impl Protocol {
    /// The stream parameters of a stream-protocol test.  Selecting any
    /// other variant is a caller error, so it is ruled out up front.
    pub fn tcp_info(&self) -> (r: TCPTestInfo)
        requires
            self matches Protocol::TCP(_),
        ensures
            *self == Protocol::TCP(r),
    {
        match self {
            Protocol::TCP(info) => *info,
            _ => {
                proof {
                    assert(false);
                }
                TCPTestInfo { recv_buf_size: 0, send_buf_size: 0 }
            },
        }
    }
}

} // verus!
