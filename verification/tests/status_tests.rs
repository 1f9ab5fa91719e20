use npcterm39::status::events::{EventQueue, TerminalEvent};
use npcterm39::status::query::TerminalState;

fn exit_codes(events: &[TerminalEvent]) -> Vec<i32> {
    events
        .iter()
        .map(|e| match e {
            TerminalEvent::CommandFinished { exit_code } => *exit_code,
            _ => -100,
        })
        .collect()
}

#[test]
fn queue_keeps_the_newest_events_in_order() {
    let mut q = EventQueue::new(2);
    for code in 1..=3 {
        q.push(TerminalEvent::CommandFinished { exit_code: code });
    }
    assert_eq!(q.len(), 2);
    assert!(!q.is_empty());
    let drained = q.drain();
    assert_eq!(exit_codes(&drained), vec![2, 3]);
    assert_eq!(q.len(), 0);
    assert!(q.is_empty());
    assert!(q.drain().is_empty());
}

#[test]
fn queue_without_capacity_still_keeps_the_latest_event() {
    let mut q = EventQueue::new(0);
    q.push(TerminalEvent::Bell);
    q.push(TerminalEvent::CommandFinished { exit_code: 7 });
    assert_eq!(q.len(), 1);
    assert_eq!(exit_codes(&q.drain()), vec![7]);
}

#[test]
fn default_queue_holds_a_hundred_events() {
    let mut q = EventQueue::default();
    for code in 0..150 {
        q.push(TerminalEvent::CommandFinished { exit_code: code });
    }
    assert_eq!(q.len(), 100);
    let drained = q.drain();
    assert_eq!(exit_codes(&drained)[0], 50);
    assert_eq!(exit_codes(&drained)[99], 149);
}

#[test]
fn queue_carries_every_kind_of_event() {
    let mut q = EventQueue::new(10);
    q.push(TerminalEvent::WaitingForInput);
    q.push(TerminalEvent::ProcessStateChanged { old: TerminalState::Running, new: TerminalState::Idle });
    q.push(TerminalEvent::ScreenChanged { changed_rows: vec![1, 4] });
    let drained = q.drain();
    assert!(matches!(drained[0], TerminalEvent::WaitingForInput));
    assert!(matches!(
        drained[1],
        TerminalEvent::ProcessStateChanged { old: TerminalState::Running, new: TerminalState::Idle }
    ));
    match &drained[2] {
        TerminalEvent::ScreenChanged { changed_rows } => assert_eq!(changed_rows, &vec![1, 4]),
        _ => panic!("wrong event"),
    }
}

#[test]
fn state_detection_precedence() {
    assert_eq!(TerminalState::detect(false, None, None, true), TerminalState::Exited);
    assert_eq!(TerminalState::detect(true, Some(0), Some(10), true), TerminalState::Exited);
    assert_eq!(TerminalState::detect(true, None, Some(9000), true), TerminalState::WaitingForInput);
    assert_eq!(TerminalState::detect(true, None, Some(501), false), TerminalState::Idle);
    assert_eq!(TerminalState::detect(true, None, Some(500), false), TerminalState::Running);
    assert_eq!(TerminalState::detect(true, None, None, false), TerminalState::Running);
}

#[test]
fn state_names() {
    assert_eq!(TerminalState::Running.to_string(), "running");
    assert_eq!(TerminalState::Idle.to_string(), "idle");
    assert_eq!(TerminalState::WaitingForInput.to_string(), "waiting_for_input");
    assert_eq!(TerminalState::Exited.to_string(), "exited");
}
