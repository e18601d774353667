//! The capture loop and the session controller, as pure decision logic:
//! the caller performs the capture calls, hands each poll's outcome in as
//! a value, and carries the returned plan out (fan-out, yield, back-off).
//! The handle slot is modeled by a generation number: installing a new
//! handle bumps it and touches nothing else, so a swap between two
//! iterations changes no count and the very next poll sees the new handle.

use vstd::prelude::*;
use crate::counters::AggregateCounters;
use crate::packet::PacketInfo;
use crate::packet::ethernet::{category_spec, decode_spec, eth_ok, parse_packet};

verus! {

/// The lifecycle of the capture loop: it runs until a shutdown request is
/// observed, stops iterating, and is stopped once consumers are joined.
#[derive(Debug, Clone, Copy, PartialEq, Eq, Structural)]
pub enum LoopState {
    Running,
    Stopping,
    Stopped,
}

/// What one non-blocking poll of the capture handle yielded: a raw frame,
/// nothing ready now, or a capture error (a poisoned lock counts as one).
pub enum PollOutcome {
    Frame(Vec<u8>),
    Empty,
    Failed,
}

/// How to pace the next iteration: go on at once, yield the scheduler
/// (no frame was ready), or back off briefly (the poll failed).
#[derive(Debug, Clone, Copy, PartialEq, Eq, Structural)]
pub enum Pacing {
    Proceed,
    YieldNow,
    Backoff,
}

/// What one iteration decided: the decoded record to fan out (absent when
/// there was no frame or it failed to decode), the pacing of the next
/// iteration, and which handle generation the poll was made against.
pub struct IterationOutcome {
    pub decoded: Option<PacketInfo>,
    pub pacing: Pacing,
    pub observed_generation: u64,
}

/// The lock-guarded slot that owns the capture handle. The generation
/// number stands for the handle installed in it; the handle itself lives
/// with the caller, which replaces it under the same lock.
pub struct SessionSlot {
    pub generation: u64,
}

impl SessionSlot {
    /// A slot holding the initial handle.
    pub fn new() -> (r: Self)
        ensures
            r.generation == 0,
    {
        SessionSlot { generation: 0 }
    }

    /// Installs a newly opened handle in place of the old one. The old
    /// handle is dropped by the caller; nothing else changes, so a swap
    /// is transparent to the loop and to the counters.
    pub fn replace(&mut self)
        requires
            old(self).generation < u64::MAX,
        ensures
            final(self).generation == old(self).generation + 1,
    {
        self.generation = self.generation + 1;
    }
}

/// The capture loop's own state: its lifecycle and the shared counters it
/// updates once per decoded frame.
pub struct CaptureLoop {
    pub state: LoopState,
    pub counters: AggregateCounters,
}

impl CaptureLoop {
    pub open spec fn wf(self) -> bool {
        self.counters.wf()
    }

    /// A loop ready to run, with all counts at zero.
    pub fn new() -> (r: Self)
        ensures
            r.wf(),
            r.state == LoopState::Running,
            forall|c: crate::packet::PacketType| r.counters.count_of(c) == 0,
    {
        CaptureLoop { state: LoopState::Running, counters: AggregateCounters::new() }
    }

    /// One iteration of the poll/decode/count cycle. A shutdown request
    /// observed at the top of the iteration moves the loop to `Stopping`
    /// and nothing else happens. Otherwise a polled frame is decoded and
    /// exactly its category's count is raised by one (a frame too short
    /// to decode raises nothing and is reported as not decoded — the
    /// caller logs it and the loop goes on); no frame ready asks for a
    /// scheduler yield and a failed poll for a bounded back-off. The
    /// outcome also reports which handle generation the poll observed.
    pub fn iterate(&mut self, slot: &SessionSlot, shutdown_requested: bool, poll: PollOutcome) -> (r:
        IterationOutcome)
        requires
            old(self).wf(),
            old(self).state == LoopState::Running,
            forall|c: crate::packet::PacketType| old(self).counters.count_of(c) < u64::MAX,
        ensures
            final(self).wf(),
            r.observed_generation == slot.generation,
            shutdown_requested ==> final(self).state == LoopState::Stopping && final(self).counters
                == old(self).counters && r.decoded is None && r.pacing == Pacing::Proceed,
            !shutdown_requested ==> final(self).state == LoopState::Running,
            !shutdown_requested ==> match poll {
                PollOutcome::Frame(data) => {
                    if eth_ok(data@) {
                        &&& (r.decoded matches Some(info) && decode_spec(data@, info))
                        &&& final(self).counters.count_of(category_spec(data@)) == old(
                            self,
                        ).counters.count_of(category_spec(data@)) + 1
                        &&& (forall|c2: crate::packet::PacketType|
                            c2 != category_spec(data@) ==> final(self).counters.count_of(c2) == old(
                                self,
                            ).counters.count_of(c2))
                        &&& r.pacing == Pacing::Proceed
                    } else {
                        &&& r.decoded is None
                        &&& final(self).counters == old(self).counters
                        &&& r.pacing == Pacing::Proceed
                    }
                },
                PollOutcome::Empty => r.decoded is None && final(self).counters == old(
                    self,
                ).counters && r.pacing == Pacing::YieldNow,
                PollOutcome::Failed => r.decoded is None && final(self).counters == old(
                    self,
                ).counters && r.pacing == Pacing::Backoff,
            },
    {
        let observed = slot.generation;
        if shutdown_requested {
            self.state = LoopState::Stopping;
            return IterationOutcome {
                decoded: None,
                pacing: Pacing::Proceed,
                observed_generation: observed,
            };
        }
        match poll {
            PollOutcome::Frame(data) => {
                match parse_packet(data.as_slice()) {
                    Ok(info) => {
                        self.counters.increment(info.packet_type);
                        IterationOutcome {
                            decoded: Some(info),
                            pacing: Pacing::Proceed,
                            observed_generation: observed,
                        }
                    },
                    Err(_) => IterationOutcome {
                        decoded: None,
                        pacing: Pacing::Proceed,
                        observed_generation: observed,
                    },
                }
            },
            PollOutcome::Empty => IterationOutcome {
                decoded: None,
                pacing: Pacing::YieldNow,
                observed_generation: observed,
            },
            PollOutcome::Failed => IterationOutcome {
                decoded: None,
                pacing: Pacing::Backoff,
                observed_generation: observed,
            },
        }
    }

    /// The final transition, taken once the current iteration is done and
    /// any consumer channel is closed and joined.
    pub fn finish(&mut self)
        requires
            old(self).state == LoopState::Stopping,
        ensures
            final(self).state == LoopState::Stopped,
            final(self).counters == old(self).counters,
    {
        self.state = LoopState::Stopped;
    }
}

/// Decides whether a filter expression is blank (only whitespace), in
/// which case applying it is a valid no-op and the capture facility is
/// not called at all.
pub fn filter_is_noop(filter: &str) -> (r: bool)
    ensures
        r <==> crate::text::is_blank_text(filter@),
{
    crate::text::str_is_blank(filter)
}

} // verus!
