use tickbox::event::Event;
use tickbox::supervisor::{
    outcome_success, ExitKind, ExitOutcome, StreamEvent, Supervisor,
};

fn line(s: &str) -> StreamEvent {
    StreamEvent::OutLine(Some(s.to_string()))
}

#[test]
fn banner_announces_the_task() {
    let sup = Supervisor::new("mytask".to_string());
    assert_eq!(
        sup.banner(),
        Event::AddLine("============ Running \"mytask\" ================".to_string())
    );
}

#[test]
fn lines_are_forwarded_in_arrival_order() {
    let mut sup = Supervisor::new("t".to_string());
    let evs = sup.step(line("first"));
    assert_eq!(evs, vec![Event::AddLine("first".to_string())]);
    let evs = sup.step(StreamEvent::ErrLine(Some("second".to_string())));
    assert_eq!(evs, vec![Event::AddLine("second".to_string())]);
    assert!(sup.out_open && sup.err_open);
    assert_eq!(sup.finished, None);
}

#[test]
fn end_of_stream_closes_only_that_stream() {
    let mut sup = Supervisor::new("t".to_string());
    assert!(sup.step(StreamEvent::ErrLine(None)).is_empty());
    assert!(!sup.err_open);
    assert!(sup.out_open);
    // The other stream keeps flowing.
    let evs = sup.step(line("still here"));
    assert_eq!(evs, vec![Event::AddLine("still here".to_string())]);
}

#[test]
fn clean_exit_emits_separator_and_summary() {
    let mut sup = Supervisor::new("mytask".to_string());
    let evs = sup.step(StreamEvent::Exited(ExitKind::Code(0)));
    assert_eq!(
        evs,
        vec![
            Event::AddLine(String::new()),
            Event::AddLine("==> Command \"mytask\" exited with code 0".to_string()),
        ]
    );
    assert_eq!(sup.finished, Some(ExitOutcome::Success));
    assert!(outcome_success(&ExitOutcome::Success));
}

#[test]
fn non_zero_exit_is_a_failure() {
    let mut sup = Supervisor::new("t".to_string());
    let evs = sup.step(StreamEvent::Exited(ExitKind::Code(1)));
    assert_eq!(
        evs,
        vec![
            Event::AddLine(String::new()),
            Event::AddLine("==> Command \"t\" exited with code 1".to_string()),
        ]
    );
    assert_eq!(sup.finished, Some(ExitOutcome::NonZeroExit(1)));
    assert!(!outcome_success(&ExitOutcome::NonZeroExit(1)));
}

#[test]
fn negative_exit_code_is_rendered_with_sign() {
    let mut sup = Supervisor::new("t".to_string());
    let evs = sup.step(StreamEvent::Exited(ExitKind::Code(-3)));
    assert_eq!(
        evs[1],
        Event::AddLine("==> Command \"t\" exited with code -3".to_string())
    );
    assert_eq!(sup.finished, Some(ExitOutcome::NonZeroExit(-3)));
}

#[test]
fn signal_termination_is_reported_and_fails() {
    let mut sup = Supervisor::new("t".to_string());
    let evs = sup.step(StreamEvent::Exited(ExitKind::Signal(9)));
    assert_eq!(
        evs,
        vec![
            Event::AddLine(String::new()),
            Event::AddLine("==> Command \"t\" exited with signal 9 ".to_string()),
        ]
    );
    assert_eq!(sup.finished, Some(ExitOutcome::Signaled(9)));
    assert!(!outcome_success(&ExitOutcome::Signaled(9)));
}

#[test]
fn consumer_disconnect_ends_supervision_at_once() {
    let mut sup = Supervisor::new("t".to_string());
    sup.step(line("partial output"));
    // A failed send means the consumer is gone: the supervisor records the
    // early termination and its driver kills the subprocess immediately.
    sup.consumer_gone();
    assert_eq!(sup.finished, Some(ExitOutcome::ConsumerGone));
    assert!(!outcome_success(&ExitOutcome::ConsumerGone));
}
