//! The life of one scan, from request to final outcome.
//!
//! A scan is idle until its workers are dispatched. Each worker holds a
//! handle on the result channel, and so does the scheduler until it
//! relinquishes its own. From then on the channel is drained: findings are
//! taken in as they arrive, and the scan is complete when the last worker
//! has let go of its handle. Nothing cancels a scan.

use vstd::prelude::*;
use crate::outcome::{recorded, ScanOutcome};
use crate::request::ScanRequest;

verus! {

/// Where a scan stands.
#[derive(Clone, Copy, Debug, PartialEq, Eq, Structural)]
pub enum Phase {
    /// The request is there, nothing runs.
    Idle,
    /// Every worker runs; the scheduler still holds its own handle.
    Dispatched,
    /// Findings are taken in until the last worker is done.
    Draining,
    /// The outcome is final.
    Complete,
}

/// What can happen to a scan.
#[derive(Clone, Copy, Debug, PartialEq, Eq, Structural)]
pub enum Event {
    /// The workers were started.
    Dispatch,
    /// The scheduler gave up its own handle on the channel.
    Relinquish,
    /// A worker found this port open.
    Found(u16),
    /// A worker reached the end of its share and let go of its handle.
    WorkerDone,
}

/// A scan's state as contracts see it.
pub struct ScanState {
    pub phase: Phase,
    /// The workers that still hold a handle on the channel.
    pub live: nat,
    /// The ports found so far, in discovery order.
    pub found: Seq<u16>,
}

/// The state after `event`, or `None` where the event has no place in the state.
pub open spec fn next_state(workers: nat, state: ScanState, event: Event) -> Option<ScanState> {
    match (state.phase, event) {
        (Phase::Idle, Event::Dispatch) => Some(
            ScanState { phase: Phase::Dispatched, live: workers, found: state.found },
        ),
        (Phase::Dispatched, Event::Relinquish) => Some(
            ScanState { phase: Phase::Draining, live: state.live, found: state.found },
        ),
        (Phase::Draining, Event::Found(port)) => Some(
            ScanState { phase: Phase::Draining, live: state.live, found: recorded(state.found, port) },
        ),
        (Phase::Draining, Event::WorkerDone) => Some(
            ScanState {
                phase: if state.live <= 1 {
                    Phase::Complete
                } else {
                    Phase::Draining
                },
                live: (state.live - 1) as nat,
                found: state.found,
            },
        ),
        _ => None,
    }
}

/// One scan and where it stands.
#[derive(Debug)]
pub struct Scheduler {
    request: ScanRequest,
    phase: Phase,
    live: u16,
    outcome: ScanOutcome,
}

impl View for Scheduler {
    type V = ScanState;

    closed spec fn view(&self) -> ScanState {
        ScanState { phase: self.phase, live: self.live as nat, found: self.outcome@ }
    }
}

impl Scheduler {
    /// The request that this scan serves.
    pub closed spec fn request(&self) -> ScanRequest {
        self.request
    }

    /// What holds of every scan: the request is valid, no port was found
    /// twice, workers are live exactly between dispatch and completion and
    /// never more than were asked for, and nothing is found before draining.
    pub open spec fn wf(&self) -> bool {
        &&& self.request().wf()
        &&& self@.found.no_duplicates()
        &&& self@.live <= self.request().worker_count
        &&& self@.phase == Phase::Idle ==> self@.live == 0 && self@.found.len() == 0
        &&& self@.phase == Phase::Dispatched ==> self@.live >= 1 && self@.found.len() == 0
        &&& self@.phase == Phase::Draining ==> self@.live >= 1
        &&& self@.phase == Phase::Complete ==> self@.live == 0
    }

    /// An idle scan for `request`.
    pub fn new(request: ScanRequest) -> (s: Scheduler)
        requires
            request.wf(),
        ensures
            s.wf(),
            s.request() == request,
            s@ == (ScanState { phase: Phase::Idle, live: 0, found: Seq::empty() }),
    {
        Scheduler { request, phase: Phase::Idle, live: 0, outcome: ScanOutcome::new() }
    }

    /// Where the scan stands.
    pub fn phase(&self) -> (p: Phase)
        ensures
            p == self@.phase,
    {
        self.phase
    }

    /// How many workers still hold a handle on the channel.
    pub fn live_workers(&self) -> (n: u16)
        ensures
            n == self@.live,
    {
        self.live
    }

    /// Takes in one event. An event that has no place in the current phase is
    /// refused and changes nothing.
    pub fn step(&mut self, event: Event) -> (accepted: bool)
        requires
            old(self).wf(),
        ensures
            final(self).wf(),
            final(self).request() == old(self).request(),
            accepted == next_state(
                old(self).request().worker_count as nat,
                old(self)@,
                event,
            ).is_some(),
            accepted ==> final(self)@ == next_state(
                old(self).request().worker_count as nat,
                old(self)@,
                event,
            ).unwrap(),
            !accepted ==> final(self)@ == old(self)@,
    {
        match (self.phase, event) {
            (Phase::Idle, Event::Dispatch) => {
                self.phase = Phase::Dispatched;
                self.live = self.request.worker_count;
                true
            },
            (Phase::Dispatched, Event::Relinquish) => {
                self.phase = Phase::Draining;
                true
            },
            (Phase::Draining, Event::Found(port)) => {
                self.outcome.record(port);
                true
            },
            (Phase::Draining, Event::WorkerDone) => {
                self.live = self.live - 1;
                if self.live == 0 {
                    self.phase = Phase::Complete;
                }
                true
            },
            _ => false,
        }
    }

    /// Takes in a run of events in order, passing over those that have no
    /// place in the phase they arrive in.
    pub fn drain(&mut self, events: &[Event])
        requires
            old(self).wf(),
        ensures
            final(self).wf(),
            final(self).request() == old(self).request(),
            final(self)@ == state_after(
                old(self).request().worker_count as nat,
                old(self)@,
                events@,
            ),
    {
        let ghost workers = self.request().worker_count as nat;
        let mut i: usize = 0;
        while i < events.len()
            invariant
                i <= events@.len(),
                self.wf(),
                self.request() == old(self).request(),
                workers == old(self).request().worker_count,
                self@ == state_after(workers, old(self)@, events@.take(i as int)),
            decreases events@.len() - i,
        {
            let _accepted: bool = self.step(events[i]);
            proof {
                assert(events@.take(i + 1).drop_last() =~= events@.take(i as int));
            }
            i += 1;
        }
        proof {
            assert(events@.take(i as int) =~= events@);
        }
    }

    /// Hands out the outcome of a complete scan; an unfinished scan is handed back.
    pub fn finish(self) -> (r: Result<ScanOutcome, Scheduler>)
        requires
            self.wf(),
        ensures
            r.is_ok() <==> self@.phase == Phase::Complete,
            r.is_ok() ==> r.unwrap()@ == self@.found && r.unwrap().wf(),
            r.is_err() ==> r.unwrap_err() == self,
    {
        match self.phase {
            Phase::Complete => Ok(self.outcome),
            _ => Err(self),
        }
    }
}

/// The state after a run of events, each taken in where it has a place and
/// passed over where it has none.
pub open spec fn state_after(workers: nat, state: ScanState, events: Seq<Event>) -> ScanState
    decreases events.len(),
{
    if events.len() == 0 {
        state
    } else {
        let before = state_after(workers, state, events.drop_last());
        match next_state(workers, before, events.last()) {
            Some(after) => after,
            None => before,
        }
    }
}

/// How many workers a run of events reports as done.
pub open spec fn done_count(events: Seq<Event>) -> nat
    decreases events.len(),
{
    if events.len() == 0 {
        0
    } else {
        done_count(events.drop_last()) + if events.last() == Event::WorkerDone {
            1nat
        } else {
            0nat
        }
    }
}

/// A draining scan completes when its last live worker is done, and not
/// before: whatever else arrives, and in whatever order, the scan is complete
/// exactly when as many workers have reported done as were live, and until
/// then it drains with the remaining ones.
pub proof fn lemma_complete_when_all_done(workers: nat, state: ScanState, events: Seq<Event>)
    requires
        state.phase == Phase::Draining,
        state.live >= 1,
    ensures
        done_count(events) >= state.live ==> state_after(workers, state, events).phase
            == Phase::Complete && state_after(workers, state, events).live == 0,
        done_count(events) < state.live ==> state_after(workers, state, events).phase
            == Phase::Draining && state_after(workers, state, events).live == state.live
            - done_count(events),
    decreases events.len(),
{
    if events.len() > 0 {
        lemma_complete_when_all_done(workers, state, events.drop_last());
    }
}

} // verus!
