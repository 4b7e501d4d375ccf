use aa_proxy_obd::adapter::AdapterError;
use aa_proxy_obd::metrics::{Metrics, Quantity, Single};
use aa_proxy_obd::scheduler::{
    connect_outcome_of, outcome_of, watchdog_should_fire, ConnectOutcome, PollOutcome, Scheduler, SchedulerAction, SchedulerEvent,
    SchedulerPhase, SchedulerStep,
};

fn started(limit: u32) -> Scheduler {
    more(Scheduler::start(10, 100, limit, true, 1000))
}

fn more(step: SchedulerStep) -> Scheduler {
    match step {
        SchedulerStep::More(s) => s,
        other => panic!("unexpected end: {other:?}"),
    }
}

fn polling(limit: u32) -> Scheduler {
    let s = more(started(limit).on_event(SchedulerEvent::Connected(ConnectOutcome::Ready), true, 1000));
    assert_eq!(s.action(), SchedulerAction::Poll);
    s
}

#[test]
fn watchdog_fires_at_or_above_limit() {
    assert!(!watchdog_should_fire(0, 20));
    assert!(!watchdog_should_fire(19, 20));
    assert!(watchdog_should_fire(20, 20));
    assert!(watchdog_should_fire(21, 20));
}

#[test]
fn watchdog_disabled_when_limit_zero() {
    assert!(!watchdog_should_fire(9999, 0));
}

#[test]
fn failed_connection_is_retried_after_the_poll_interval() {
    let s = started(20);
    assert_eq!(s.action(), SchedulerAction::Connect);
    for outcome in [ConnectOutcome::Transient, ConnectOutcome::FatalConn] {
        let s = more(s.on_event(SchedulerEvent::Connected(outcome), true, 1001));
        assert_eq!(s.action(), SchedulerAction::Wait(10));
        let s = more(s.on_event(SchedulerEvent::Waited, true, 1011));
        assert_eq!(s.action(), SchedulerAction::Connect);
    }
}

#[test]
fn data_is_published_and_the_next_poll_is_waited_for() {
    let s = more(polling(20).on_event(SchedulerEvent::Polled(PollOutcome::Data(true)), true, 1003));
    assert_eq!(s.action(), SchedulerAction::Publish);
    let s = more(s.on_event(SchedulerEvent::Published, true, 1005));
    assert_eq!(s.deadline, 1015);
    assert_eq!(s.action(), SchedulerAction::Wait(10));
    let s = more(s.on_event(SchedulerEvent::Waited, true, 1010));
    assert_eq!(s.action(), SchedulerAction::Wait(5));
    let s = more(s.on_event(SchedulerEvent::Waited, true, 1015));
    assert_eq!(s.action(), SchedulerAction::Poll);
}

#[test]
fn watchdog_ends_the_process_after_idle_cycles() {
    let mut s = polling(3);
    let mut now = 1000;
    for round in 0..3 {
        let step = if round == 1 {
            let q = more(s.on_event(SchedulerEvent::Polled(PollOutcome::Data(false)), true, now));
            assert_eq!(q.action(), SchedulerAction::Publish);
            q.on_event(SchedulerEvent::Published, true, now)
        } else {
            s.on_event(SchedulerEvent::Polled(PollOutcome::Transient), true, now)
        };
        if round == 2 {
            assert_eq!(step, SchedulerStep::Exit(2));
        } else {
            s = more(step);
            assert_eq!(s.idle_cycles, round + 1);
            now += 10;
            s = more(s.on_event(SchedulerEvent::Waited, true, now));
        }
    }
}

#[test]
fn limit_zero_counts_for_ever() {
    let mut s = polling(0);
    s.idle_cycles = u32::MAX;
    let s = more(s.on_event(SchedulerEvent::Polled(PollOutcome::Transient), true, 1000));
    assert_eq!(s.idle_cycles, u32::MAX);
}

#[test]
fn data_starts_the_count_anew() {
    let mut s = polling(3);
    s.idle_cycles = 2;
    let s = more(s.on_event(SchedulerEvent::Polled(PollOutcome::Data(true)), true, 1000));
    let s = more(s.on_event(SchedulerEvent::Published, true, 1000));
    assert_eq!(s.idle_cycles, 0);
}

#[test]
fn sleeping_vehicle_is_polled_less_often() {
    let mut s = polling(3);
    s.idle_cycles = 2;
    let s = more(s.on_event(SchedulerEvent::Polled(PollOutcome::Sleeping), true, 1000));
    assert_eq!(s.action(), SchedulerAction::DropCache);
    let s = more(s.on_event(SchedulerEvent::CacheDropped, true, 1000));
    assert_eq!(s.idle_cycles, 0);
    assert_eq!(s.action(), SchedulerAction::Wait(100));
}

#[test]
fn lost_connection_is_closed_and_made_anew() {
    let s = more(polling(3).on_event(SchedulerEvent::Polled(PollOutcome::FatalConn), true, 1000));
    assert_eq!(s.action(), SchedulerAction::Disconnect);
    let s = more(s.on_event(SchedulerEvent::Disconnected, true, 1000));
    assert_eq!(s.action(), SchedulerAction::Connect);
}

#[test]
fn permanent_error_ends_the_process() {
    let step = polling(3).on_event(SchedulerEvent::Polled(PollOutcome::Permanent), true, 1000);
    assert_eq!(step, SchedulerStep::Exit(1));
}

#[test]
fn permanent_error_from_connecting_ends_the_process() {
    let step = started(3).on_event(SchedulerEvent::Connected(ConnectOutcome::Permanent), true, 1000);
    assert_eq!(step, SchedulerStep::Exit(1));
}

#[test]
fn sleeping_vehicle_is_connected_to_less_often() {
    let s = more(started(3).on_event(SchedulerEvent::Connected(ConnectOutcome::Sleeping), true, 1000));
    assert_eq!(s.action(), SchedulerAction::DropCache);
    let s = more(s.on_event(SchedulerEvent::CacheDropped, true, 1000));
    assert_eq!(s.action(), SchedulerAction::Wait(100));
    let s = more(s.on_event(SchedulerEvent::Waited, true, 1100));
    assert_eq!(s.action(), SchedulerAction::Connect);
}

#[test]
fn lost_connection_keeps_the_count() {
    let mut s = polling(2);
    let mut now = 1000;
    s = more(s.on_event(SchedulerEvent::Polled(PollOutcome::Transient), true, now));
    now += 10;
    s = more(s.on_event(SchedulerEvent::Waited, true, now));
    s = more(s.on_event(SchedulerEvent::Polled(PollOutcome::FatalConn), true, now));
    s = more(s.on_event(SchedulerEvent::Disconnected, true, now));
    s = more(s.on_event(SchedulerEvent::Connected(ConnectOutcome::FatalConn), true, now));
    s = more(s.on_event(SchedulerEvent::Waited, true, now));
    s = more(s.on_event(SchedulerEvent::Connected(ConnectOutcome::Ready), true, now));
    assert_eq!(s.idle_cycles, 1);
    let step = s.on_event(SchedulerEvent::Polled(PollOutcome::Transient), true, now);
    assert_eq!(step, SchedulerStep::Exit(2));
}

#[test]
fn connecting_is_judged_by_kind() {
    assert_eq!(connect_outcome_of(&Ok(())), ConnectOutcome::Ready);
    assert_eq!(connect_outcome_of(&Err(AdapterError::Transient("t".into()))), ConnectOutcome::Transient);
    assert_eq!(connect_outcome_of(&Err(AdapterError::FatalConn("f".into()))), ConnectOutcome::FatalConn);
    assert_eq!(connect_outcome_of(&Err(AdapterError::Sleeping)), ConnectOutcome::Sleeping);
    assert_eq!(connect_outcome_of(&Err(AdapterError::Permanent("p".into()))), ConnectOutcome::Permanent);
}

#[test]
fn shutdown_disconnects_and_stops() {
    let s = more(polling(3).on_event(SchedulerEvent::Interrupted, false, 1000));
    assert_eq!(s.phase, SchedulerPhase::Stopping);
    assert_eq!(s.action(), SchedulerAction::Disconnect);
    assert_eq!(s.on_event(SchedulerEvent::Disconnected, false, 1000), SchedulerStep::Stop);

    let s = more(Scheduler::start(10, 100, 3, false, 1000));
    assert_eq!(s.action(), SchedulerAction::Disconnect);
    assert_eq!(s.on_event(SchedulerEvent::Disconnected, false, 1000), SchedulerStep::Stop);
}

#[test]
fn stray_events_change_nothing() {
    let s = polling(3);
    assert_eq!(s.on_event(SchedulerEvent::Published, true, 2000), SchedulerStep::More(s));
}

#[test]
fn time_does_not_run_over() {
    let s = more(Scheduler::start(u128::MAX, 1, 3, true, 7));
    let s = more(s.on_event(SchedulerEvent::Connected(ConnectOutcome::Ready), true, 7));
    let s = more(s.on_event(SchedulerEvent::Polled(PollOutcome::Transient), true, 7));
    assert_eq!(s.deadline, u128::MAX);
}

#[test]
fn outcomes_are_judged_by_kind() {
    let mut m = Metrics::new();
    assert_eq!(outcome_of(&Ok(Metrics::new())), PollOutcome::Data(false));
    m.insert("x".to_string(), Quantity::Plain(Single { bits: 0 }));
    assert_eq!(outcome_of(&Ok(m)), PollOutcome::Data(true));
    assert_eq!(outcome_of(&Err(AdapterError::Transient("t".into()))), PollOutcome::Transient);
    assert_eq!(outcome_of(&Err(AdapterError::FatalConn("f".into()))), PollOutcome::FatalConn);
    assert_eq!(outcome_of(&Err(AdapterError::Sleeping)), PollOutcome::Sleeping);
    assert_eq!(outcome_of(&Err(AdapterError::Permanent("p".into()))), PollOutcome::Permanent);
}
