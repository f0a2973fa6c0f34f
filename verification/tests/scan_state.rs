//! The host's end of a running scan.

use std::sync::mpsc;

use lilypalooza_plugins::scan::state::{Drain, Poll};
use lilypalooza_plugins::scan::{
    PluginScanCache, PluginScanEvent, PluginScanState, PluginScanSummary,
};

fn log(line: &str) -> PluginScanEvent {
    PluginScanEvent::Log(line.to_string())
}

fn finished() -> PluginScanEvent {
    PluginScanEvent::Finished {
        summary: PluginScanSummary::default(),
        cache: PluginScanCache::default(),
    }
}

#[test]
fn drain_events_with_limit_keeps_scan_active_when_budget_is_exhausted() {
    let (sender, receiver) = mpsc::channel();
    sender
        .send(PluginScanEvent::Log("one".to_string()))
        .expect("send one");
    sender
        .send(PluginScanEvent::Log("two".to_string()))
        .expect("send two");
    sender
        .send(PluginScanEvent::Log("three".to_string()))
        .expect("send three");
    let mut state = PluginScanState::default();
    state.start(receiver);

    let events = state.drain_events_with_limit(2);

    assert_eq!(events.len(), 2);
    assert!(state.is_active());
    assert_eq!(state.drain_events().len(), 1);
}

#[test]
fn drain_events_with_limit_zero_does_not_drain() {
    let (sender, receiver) = mpsc::channel();
    sender
        .send(PluginScanEvent::Log("one".to_string()))
        .expect("send one");
    let mut state = PluginScanState::default();
    state.start(receiver);

    assert!(state.drain_events_with_limit(0).is_empty());
    assert_eq!(state.drain_events().len(), 1);
}

#[test]
fn idle_state_has_nothing_to_drain() {
    let mut state = PluginScanState::default();

    assert!(!state.is_active());
    assert!(state.drain_events().is_empty());
    assert!(!state.is_active());
}

#[test]
fn finished_event_ends_the_scan() {
    let (sender, receiver) = mpsc::channel();
    sender.send(log("one")).expect("send");
    sender.send(finished()).expect("send");
    sender.send(log("late")).expect("send");
    let mut state = PluginScanState::default();
    state.start(receiver);

    let events = state.drain_events();

    assert_eq!(events.len(), 2);
    assert!(matches!(&events[0], PluginScanEvent::Log(line) if line == "one"));
    assert!(matches!(&events[1], PluginScanEvent::Finished { .. }));
    assert!(!state.is_active());
    assert!(state.drain_events().is_empty());
}

#[test]
fn lost_sender_ends_the_scan() {
    let (sender, receiver) = mpsc::channel();
    sender.send(log("one")).expect("send");
    drop(sender);
    let mut state = PluginScanState::default();
    state.start(receiver);

    assert_eq!(state.drain_events_with_limit(1).len(), 1);
    assert!(state.is_active());
    assert!(state.drain_events().is_empty());
    assert!(!state.is_active());
}

#[test]
fn drain_ignores_polls_it_did_not_ask_for() {
    let mut drain = Drain::new(true, 2);
    assert!(drain.wants_more());
    drain.accept(Poll::Event(log("one")));
    assert!(drain.wants_more());
    drain.accept(Poll::Empty);
    assert!(!drain.wants_more());
    drain.accept(Poll::Event(log("two")));

    let (events, active) = drain.finish();

    assert_eq!(events.len(), 1);
    assert!(active);
}

fn lines(events: &[PluginScanEvent]) -> Vec<String> {
    let mut lines = Vec::new();
    for event in events {
        match event {
            PluginScanEvent::Log(line) => lines.push(line.clone()),
            PluginScanEvent::Finished { .. } => lines.push("finished".to_string()),
            _ => lines.push("plugins".to_string()),
        }
    }
    lines
}

#[test]
fn start_listens_to_the_new_scan_alone() {
    let (old_sender, old_receiver) = mpsc::channel();
    old_sender.send(log("old")).expect("send");
    let (sender, receiver) = mpsc::channel();
    sender.send(log("new")).expect("send");
    let mut state = PluginScanState::default();
    state.start(old_receiver);
    state.start(receiver);

    assert_eq!(lines(&state.drain_events()), vec!["new"]);
    assert!(old_sender.send(log("late")).is_err());
    assert!(state.drain_events().is_empty());
    assert!(state.is_active());
}

/// A state with these events pending, whose sender is gone or not.
fn pending(
    count: usize,
    ends: bool,
    gone: bool,
) -> (PluginScanState, Option<mpsc::Sender<PluginScanEvent>>) {
    let (sender, receiver) = mpsc::channel();
    for i in 0..count {
        sender.send(log(&i.to_string())).expect("send");
    }
    if ends {
        sender.send(finished()).expect("send");
        sender.send(log("after the end")).expect("send");
    }
    let mut state = PluginScanState::default();
    state.start(receiver);
    (state, if gone { None } else { Some(sender) })
}

#[test]
fn two_drains_yield_what_one_does() {
    for count in 0..4 {
        for ends in [false, true] {
            for gone in [false, true] {
                for limit in 0..6 {
                    let (mut twice, _keep) = pending(count, ends, gone);
                    let (mut once, _keep_too) = pending(count, ends, gone);
                    let mut events = twice.drain_events_with_limit(limit);
                    events.extend(twice.drain_events());
                    assert_eq!(lines(&events), lines(&once.drain_events()));
                    assert_eq!(twice.is_active(), once.is_active());
                    assert_eq!(once.is_active(), !ends && !gone);
                }
            }
        }
    }
}

#[test]
fn scan_is_active_from_a_start_to_its_end() {
    let mut state = PluginScanState::default();
    assert!(!state.is_active());
    for _ in 0..2 {
        let (sender, receiver) = mpsc::channel();
        state.start(receiver);
        assert!(state.is_active());
        sender.send(log("one")).expect("send");
        state.drain_events();
        assert!(state.is_active());
        sender.send(finished()).expect("send");
        assert!(state.drain_events_with_limit(0).is_empty());
        assert!(state.is_active());
        state.drain_events_with_limit(1);
        assert!(!state.is_active());
    }
}
