use tickbox::bus::EventBus;
use tickbox::consumer::{apply_status, clamp_scroll, Consumer};
use tickbox::event::Event;
use tickbox::task::{State, Task};

fn task(n: usize, name: &str, state: State) -> Task {
    Task { n, id: n, name: name.to_string(), cmd: String::new(), state }
}

#[test]
fn bus_is_first_in_first_out() {
    let mut bus = EventBus::new(10);
    assert!(bus.try_send(Event::AddLine("a".to_string())));
    assert!(bus.try_send(Event::Wait));
    assert!(bus.try_send(Event::AddLine("b".to_string())));
    assert_eq!(bus.len(), 3);
    assert_eq!(bus.recv(), Some(Event::AddLine("a".to_string())));
    assert_eq!(bus.recv(), Some(Event::Wait));
    assert_eq!(bus.recv(), Some(Event::AddLine("b".to_string())));
    assert_eq!(bus.recv(), None);
}

#[test]
fn full_bus_refuses_the_send() {
    let mut bus = EventBus::new(2);
    assert!(bus.try_send(Event::AddLine("1".to_string())));
    assert!(bus.try_send(Event::AddLine("2".to_string())));
    // Backpressure: the producer must wait for the consumer.
    assert!(!bus.try_send(Event::AddLine("3".to_string())));
    assert_eq!(bus.len(), 2);
    bus.recv();
    assert!(bus.try_send(Event::AddLine("3".to_string())));
}

#[test]
fn drain_returns_everything_in_send_order() {
    let mut bus = EventBus::new(5);
    for i in 0..5 {
        assert!(bus.try_send(Event::AddLine(format!("line-{i}"))));
    }
    let all = bus.drain();
    assert_eq!(bus.len(), 0);
    let texts: Vec<String> = all
        .into_iter()
        .map(|e| match e {
            Event::AddLine(l) => l,
            other => panic!("unexpected event {other:?}"),
        })
        .collect();
    assert_eq!(texts, vec!["line-0", "line-1", "line-2", "line-3", "line-4"]);
}

#[test]
fn status_upsert_appends_then_replaces_in_place() {
    let mut table: Vec<Task> = Vec::new();
    apply_status(&mut table, task(0, "01-a", State::Pending));
    apply_status(&mut table, task(1, "02-b", State::Pending));
    assert_eq!(table.len(), 2);
    apply_status(&mut table, task(0, "01-a", State::Running(5)));
    assert_eq!(table.len(), 2);
    assert!(matches!(table[0].state, State::Running(5)));
    assert!(matches!(table[1].state, State::Pending));
    assert_eq!(table[0].name, "01-a");
}

#[test]
fn consumer_digests_the_event_stream() {
    let mut c = Consumer::new();
    assert!(!c.keep_open_on_disconnect());
    c.apply(Event::Status(task(0, "01-a", State::Pending)));
    c.apply(Event::AddLine("hello".to_string()));
    c.apply(Event::AddLine("world".to_string()));
    c.apply(Event::Wait);
    c.apply(Event::Status(task(0, "01-a", State::Complete(3))));
    assert_eq!(c.out, "hello\nworld\n");
    assert_eq!(c.status.len(), 1);
    assert!(matches!(c.status[0].state, State::Complete(3)));
    // A Wait was seen: end-of-stream must not close the display.
    assert!(c.keep_open_on_disconnect());
}

#[test]
fn scrolling_saturates_at_both_ends() {
    let mut c = Consumer::new();
    c.scroll_forward(3);
    assert_eq!(c.scroll, 0);
    c.scroll_back(10);
    assert_eq!(c.scroll, 10);
    c.scroll_forward(4);
    assert_eq!(c.scroll, 6);
    c.scroll_back(usize::MAX);
    assert_eq!(c.scroll, usize::MAX);
}

#[test]
fn scroll_clamp_respects_buffer_and_window() {
    // A short buffer in a tall window leaves almost nothing to scroll.
    assert_eq!(clamp_scroll(10, 5, 40), 2);
    // A long buffer allows scrolling up to two lines past the top.
    assert_eq!(clamp_scroll(98, 100, 10), 92);
    assert_eq!(clamp_scroll(7, 100, 10), 7);
    assert_eq!(clamp_scroll(0, 0, 10), 0);
}
