use port_sniffer::lifecycle::{Event, Phase, Scheduler};
use port_sniffer::outcome::ScanOutcome;
use port_sniffer::request::{Address, Flag, ScanRequest};

fn request(workers: u16) -> ScanRequest {
    ScanRequest::new(Flag::All, Address::V4(1), 1, 100, workers).unwrap()
}

#[test]
fn a_scan_goes_from_idle_to_complete() {
    let mut s = Scheduler::new(request(2));
    assert_eq!(s.phase(), Phase::Idle);
    assert_eq!(s.live_workers(), 0);
    assert!(s.step(Event::Dispatch));
    assert_eq!(s.phase(), Phase::Dispatched);
    assert_eq!(s.live_workers(), 2);
    assert!(s.step(Event::Relinquish));
    assert_eq!(s.phase(), Phase::Draining);
    assert!(s.step(Event::Found(7)));
    assert!(s.step(Event::WorkerDone));
    assert_eq!(s.phase(), Phase::Draining);
    assert_eq!(s.live_workers(), 1);
    assert!(s.step(Event::Found(3)));
    assert!(s.step(Event::WorkerDone));
    assert_eq!(s.phase(), Phase::Complete);
    assert_eq!(s.live_workers(), 0);
    let out = s.finish().unwrap();
    assert_eq!(out.ports(), &vec![7, 3]);
}

#[test]
fn events_out_of_place_are_refused() {
    let mut s = Scheduler::new(request(1));
    assert!(!s.step(Event::Relinquish));
    assert!(!s.step(Event::Found(1)));
    assert!(!s.step(Event::WorkerDone));
    assert_eq!(s.phase(), Phase::Idle);
    assert!(s.step(Event::Dispatch));
    assert!(!s.step(Event::Dispatch));
    assert!(!s.step(Event::Found(1)));
    assert!(!s.step(Event::WorkerDone));
    assert_eq!(s.phase(), Phase::Dispatched);
    assert_eq!(s.live_workers(), 1);
    assert!(s.step(Event::Relinquish));
    assert!(!s.step(Event::Dispatch));
    assert!(!s.step(Event::Relinquish));
    assert!(s.step(Event::WorkerDone));
    assert_eq!(s.phase(), Phase::Complete);
    assert!(!s.step(Event::Found(9)));
    assert!(!s.step(Event::WorkerDone));
    assert!(!s.step(Event::Dispatch));
    assert_eq!(s.finish().unwrap().count(), 0);
}

#[test]
fn an_unfinished_scan_is_handed_back() {
    let mut s = Scheduler::new(request(3));
    s.step(Event::Dispatch);
    s.step(Event::Relinquish);
    s.step(Event::Found(11));
    s.step(Event::WorkerDone);
    let back = s.finish().unwrap_err();
    assert_eq!(back.phase(), Phase::Draining);
    assert_eq!(back.live_workers(), 2);
    let idle = Scheduler::new(request(3));
    assert!(idle.finish().is_err());
}

#[test]
fn a_port_found_twice_counts_once() {
    let mut s = Scheduler::new(request(1));
    s.step(Event::Dispatch);
    s.step(Event::Relinquish);
    assert!(s.step(Event::Found(80)));
    assert!(s.step(Event::Found(443)));
    assert!(s.step(Event::Found(80)));
    s.step(Event::WorkerDone);
    assert_eq!(s.finish().unwrap().ports(), &vec![80, 443]);
}

#[test]
fn outcome_records_with_set_semantics() {
    let mut out = ScanOutcome::new();
    assert_eq!(out.count(), 0);
    assert!(!out.contains(22));
    out.record(22);
    out.record(8080);
    out.record(22);
    out.record(443);
    assert_eq!(out.ports(), &vec![22, 8080, 443]);
    assert_eq!(out.count(), 3);
    assert!(out.contains(22));
    assert!(out.contains(443));
    assert!(!out.contains(23));
}

#[test]
fn drain_takes_events_in_order_and_skips_the_misplaced() {
    let mut s = Scheduler::new(request(2));
    s.drain(&[
        Event::Found(1),
        Event::Dispatch,
        Event::WorkerDone,
        Event::Relinquish,
        Event::Found(9),
        Event::Dispatch,
        Event::WorkerDone,
        Event::Found(4),
        Event::Found(9),
    ]);
    assert_eq!(s.phase(), Phase::Draining);
    assert_eq!(s.live_workers(), 1);
    s.drain(&[]);
    assert_eq!(s.phase(), Phase::Draining);
    s.drain(&[Event::WorkerDone, Event::Found(5), Event::WorkerDone]);
    assert_eq!(s.phase(), Phase::Complete);
    assert_eq!(s.live_workers(), 0);
    assert_eq!(s.finish().unwrap().ports(), &vec![9, 4]);
}

#[test]
fn a_scan_is_complete_exactly_when_the_last_worker_is_done() {
    for workers in [1u16, 2, 5, 300] {
        let mut s = Scheduler::new(request(workers));
        s.drain(&[Event::Dispatch, Event::Relinquish]);
        for done in 1..=workers {
            assert_eq!(s.phase(), Phase::Draining);
            assert!(s.step(Event::Found(done)));
            assert!(s.step(Event::WorkerDone));
            assert_eq!(s.live_workers(), workers - done);
        }
        assert_eq!(s.phase(), Phase::Complete);
    }
}
