//! The scan itself: every worker probes its share and reports what is open.

use vstd::prelude::*;
use crate::lifecycle::{Event, Phase, Scheduler};
use crate::outcome::ScanOutcome;
use crate::partition::{lemma_assigned_within_range, lemma_port_is_assigned, Worker};
use crate::request::ScanRequest;

verus! {

/// What a finished scan of `request` with `probe` may hold: only ports of the
/// range that the probe answered as open, and every port of the range but
/// those it answered as closed.
pub open spec fn reports<F: Fn(u16) -> bool>(
    request: ScanRequest,
    probe: F,
    found: Seq<u16>,
) -> bool {
    &&& forall|port: u16| #[trigger]
        found.contains(port) ==> request.covers(port) && probe.ensures((port,), true)
    &&& forall|port: u16| #[trigger]
        request.covers(port) ==> found.contains(port) || probe.ensures((port,), false)
}

/// Runs one worker of a draining scan to the end of its share: each port
/// that `probe` answers as open is reported as found, and at the end the
/// worker is reported as done.
pub fn run_worker<F: Fn(u16) -> bool>(
    request: &ScanRequest,
    index: u16,
    probe: &F,
    scheduler: &mut Scheduler,
)
    requires
        old(scheduler).wf(),
        old(scheduler).request() == *request,
        old(scheduler)@.phase == Phase::Draining,
        forall|port: u16| request.covers(port) ==> probe.requires((port,)),
    ensures
        final(scheduler).wf(),
        final(scheduler).request() == *request,
        final(scheduler)@.live == old(scheduler)@.live - 1,
        final(scheduler)@.phase == if old(scheduler)@.live == 1 {
            Phase::Complete
        } else {
            Phase::Draining
        },
        forall|port: u16|
            old(scheduler)@.found.contains(port) ==> final(scheduler)@.found.contains(port),
        forall|port: u16| #[trigger]
            final(scheduler)@.found.contains(port) ==> old(scheduler)@.found.contains(port) || (
            request.assigned(index as int).contains(port) && probe.ensures((port,), true)),
        forall|port: u16| #[trigger]
            request.assigned(index as int).contains(port) ==> final(scheduler)@.found.contains(
                port,
            ) || probe.ensures((port,), false),
{
    let ghost share = request.assigned(index as int);
    let ghost done: int = 0;
    let mut worker = Worker::new(request, index);
    proof {
        lemma_assigned_within_range(*request, index as int);
    }
    loop
        invariant
            request.wf(),
            share == request.assigned(index as int),
            forall|k: int| 0 <= k < share.len() ==> request.covers(#[trigger] share[k]),
            forall|port: u16| request.covers(port) ==> probe.requires((port,)),
            worker.wf(),
            scheduler.wf(),
            scheduler.request() == *request,
            scheduler@.phase == Phase::Draining,
            scheduler@.live == old(scheduler)@.live,
            0 <= done <= share.len(),
            worker.remaining() == share.skip(done),
            forall|port: u16|
                old(scheduler)@.found.contains(port) ==> scheduler@.found.contains(port),
            forall|port: u16| #[trigger]
                scheduler@.found.contains(port) ==> old(scheduler)@.found.contains(port) || (
                share.contains(port) && probe.ensures((port,), true)),
            forall|k: int|
                0 <= k < done ==> scheduler@.found.contains(#[trigger] share[k])
                    || probe.ensures((share[k],), false),
        ensures
            done == share.len(),
        decreases share.len() - done,
    {
        match worker.current() {
            Some(port) => {
                assert(port == share[done]);
                let ghost before = scheduler@.found;
                let open: bool = probe(port);
                if open {
                    let accepted: bool = scheduler.step(Event::Found(port));
                    assert(accepted);
                }
                worker.advance();
                proof {
                    let after = scheduler@.found;
                    assert(worker.remaining() =~= share.skip(done + 1));
                    assert forall|p: u16| before.contains(p) implies after.contains(p) by {
                        if open && !before.contains(port) {
                            let j = choose|j: int| 0 <= j < before.len() && before[j] == p;
                            assert(after[j] == p);
                        }
                    }
                    assert forall|p: u16| #[trigger] after.contains(p) implies old(
                        scheduler,
                    )@.found.contains(p) || (share.contains(p) && probe.ensures((p,), true)) by {
                        if !before.contains(p) {
                            assert(open && p == port);
                        }
                    }
                    if open {
                        assert(after[after.len() - 1] == port || before.contains(port));
                        assert(after.contains(port));
                    }
                    done = done + 1;
                }
            },
            None => {
                break ;
            },
        }
    }
    let accepted: bool = scheduler.step(Event::WorkerDone);
    proof {
        assert(accepted);
        assert forall|port: u16| #[trigger]
            share.contains(port) implies scheduler@.found.contains(port) || probe.ensures(
            (port,),
            false,
        ) by {
            let k = choose|k: int| 0 <= k < share.len() && share[k] == port;
            assert(scheduler@.found.contains(share[k]) || probe.ensures((share[k],), false));
        }
    }
}

/// Scans the whole range of `request`, worker by worker, and returns what was
/// found open.
///
/// `probe` stands for one connection attempt. Whatever it answers, the scan
/// runs to completion, and the outcome holds exactly the ports of the range
/// that it answered as open; the number of workers changes the order of
/// discovery and nothing else.
pub fn run_scan<F: Fn(u16) -> bool>(request: &ScanRequest, probe: F) -> (outcome: ScanOutcome)
    requires
        request.wf(),
        forall|port: u16| request.covers(port) ==> probe.requires((port,)),
    ensures
        outcome.wf(),
        reports(*request, probe, outcome@),
{
    let mut scheduler = Scheduler::new(*request);
    let dispatched: bool = scheduler.step(Event::Dispatch);
    let draining: bool = scheduler.step(Event::Relinquish);
    let mut index: u16 = 0;
    while index < request.worker_count
        invariant
            request.wf(),
            forall|port: u16| request.covers(port) ==> probe.requires((port,)),
            index <= request.worker_count,
            scheduler.wf(),
            scheduler.request() == *request,
            scheduler@.live == request.worker_count - index,
            scheduler@.phase == if index < request.worker_count {
                Phase::Draining
            } else {
                Phase::Complete
            },
            forall|port: u16| #[trigger]
                scheduler@.found.contains(port) ==> request.covers(port) && probe.ensures(
                    (port,),
                    true,
                ),
            forall|port: u16| #[trigger]
                request.covers(port) && request.owner_of(port) < index
                    ==> scheduler@.found.contains(port) || probe.ensures((port,), false),
        decreases request.worker_count - index,
    {
        let ghost before = scheduler@.found;
        run_worker(request, index, &probe, &mut scheduler);
        proof {
            let after = scheduler@.found;
            lemma_assigned_within_range(*request, index as int);
            assert forall|port: u16| #[trigger] after.contains(port) implies request.covers(port)
                && probe.ensures((port,), true) by {
                if !before.contains(port) {
                    let share = request.assigned(index as int);
                    assert(share.contains(port));
                    let k = choose|k: int| 0 <= k < share.len() && share[k] == port;
                    assert(request.covers(share[k]));
                }
            }
            assert forall|port: u16| #[trigger]
                request.covers(port) && request.owner_of(port) < index + 1
                    implies after.contains(port) || probe.ensures((port,), false) by {
                lemma_port_is_assigned(*request, port);
                if request.owner_of(port) == index {
                    let share = request.assigned(index as int);
                    assert(share[request.slot_of(port)] == port);
                    assert(share.contains(port));
                } else {
                    assert(before.contains(port) || probe.ensures((port,), false));
                }
            }
        }
        index += 1;
    }
    proof {
        assert forall|port: u16| #[trigger]
            request.covers(port) implies scheduler@.found.contains(port) || probe.ensures(
            (port,),
            false,
        ) by {
            lemma_port_is_assigned(*request, port);
        }
    }
    match scheduler.finish() {
        Ok(outcome) => outcome,
        Err(_) => unreached(),
    }
}

/// Against a probe that answers by membership in a fixed set of ports, the
/// outcome is that set, cut down to the requested range.
pub proof fn lemma_outcome_is_open_set<F: Fn(u16) -> bool>(
    request: ScanRequest,
    probe: F,
    open: Set<u16>,
    found: Seq<u16>,
)
    requires
        request.wf(),
        reports(request, probe, found),
        forall|port: u16, answer: bool|
            probe.ensures((port,), answer) ==> answer == open.contains(port),
    ensures
        found.to_set() == open.filter(|port: u16| request.covers(port)),
{
    let cut = open.filter(|port: u16| request.covers(port));
    assert forall|port: u16| found.to_set().contains(port) <==> cut.contains(port) by {
        if found.contains(port) {
            assert(request.covers(port) && probe.ensures((port,), true));
        }
        if cut.contains(port) {
            assert(request.covers(port));
            if !found.contains(port) {
                assert(probe.ensures((port,), false));
            }
        }
    }
    assert(found.to_set() =~= cut);
}

/// Two scans of the same range against the same set-answering probe find the
/// same ports, whatever their worker counts.
pub proof fn lemma_outcome_ignores_worker_count<F: Fn(u16) -> bool>(
    first: ScanRequest,
    second: ScanRequest,
    probe: F,
    open: Set<u16>,
    found_first: Seq<u16>,
    found_second: Seq<u16>,
)
    requires
        first.wf(),
        second.wf(),
        first.port_from == second.port_from,
        first.port_to == second.port_to,
        reports(first, probe, found_first),
        reports(second, probe, found_second),
        forall|port: u16, answer: bool|
            probe.ensures((port,), answer) ==> answer == open.contains(port),
    ensures
        found_first.to_set() == found_second.to_set(),
{
    lemma_outcome_is_open_set(first, probe, open, found_first);
    lemma_outcome_is_open_set(second, probe, open, found_second);
    assert(open.filter(|port: u16| first.covers(port)) =~= open.filter(
        |port: u16| second.covers(port),
    ));
}

} // verus!
