//! The example components against the component contract, and the message
//! queue on its own.

use tui_base_framework::Component;
use tui_base_framework::Rect;
use tui_base_framework::event::Event;
use tui_base_framework::event::EventResult;
use tui_base_framework::event::KeyCode;
use tui_base_framework::event::KeyInput;
use tui_base_framework::event::KeyMods;
use tui_base_framework::examples::counter::Counter;
use tui_base_framework::examples::list_selector::ListSelector;
use tui_base_framework::message::Message;
use tui_base_framework::message::MessageQueue;

fn key(code: KeyCode) -> Event {
    Event::Key(KeyInput { code, mods: KeyMods::empty() })
}

fn items(names: &[&str]) -> Vec<String> {
    names.iter().map(|name| name.to_string()).collect()
}

#[test]
fn list_navigation_clamps_at_both_ends() {
    let mut list = ListSelector::new(items(&["alpha", "beta", "gamma", "delta"]));
    let mut queue = MessageQueue::new(10);
    assert_eq!(list.selected(), 0);

    // Down three times reaches the last of four items ...
    for _ in 0..3 {
        list.handle_event(key(KeyCode::Down), &mut queue);
    }
    assert_eq!(list.selected(), 3);

    // ... and further presses stay there: no wraparound, no out-of-bounds.
    list.handle_event(key(KeyCode::Down), &mut queue);
    assert_eq!(list.selected(), 3);

    list.handle_event(key(KeyCode::Up), &mut queue);
    assert_eq!(list.selected(), 2);
}

#[test]
fn list_render_marks_the_selection() {
    let mut list = ListSelector::new(items(&["first", "second"]));
    let mut queue = MessageQueue::new(10);
    let area = Rect::whole(80, 24);

    let lines = list.render(area);
    assert_eq!(lines, vec!["> first".to_string(), "  second".to_string()]);

    list.handle_event(key(KeyCode::Down), &mut queue);
    let lines = list.render(area);
    assert_eq!(lines, vec!["  first".to_string(), "> second".to_string()]);
}

#[test]
fn empty_list_stays_put() {
    let mut list = ListSelector::new(Vec::new());
    let mut queue = MessageQueue::new(10);
    list.handle_event(key(KeyCode::Down), &mut queue);
    list.handle_event(key(KeyCode::Up), &mut queue);
    assert_eq!(list.selected(), 0);
    assert_eq!(list.render(Rect::whole(80, 24)), Vec::<String>::new());
}

#[test]
fn counter_saturates_at_zero() {
    let mut counter = Counter::new();
    let mut queue = MessageQueue::new(10);
    counter.handle_event(key(KeyCode::Down), &mut queue);
    assert_eq!(counter.count(), 0);
}

#[test]
fn counter_quit_key_emits_one_quit_message() {
    let mut counter = Counter::new();
    let mut queue = MessageQueue::new(10);
    let result = counter.handle_event(key(KeyCode::Char('q')), &mut queue);
    assert_eq!(result, EventResult::Consumed);
    assert_eq!(queue.drain(), vec![Message::Quit]);
    // Other letters emit nothing and are left to propagate.
    let result = counter.handle_event(key(KeyCode::Char('x')), &mut queue);
    assert_eq!(result, EventResult::Propagate);
    assert_eq!(queue.drain(), Vec::<Message>::new());
}

#[test]
fn counter_update_sets_the_count_and_ticks_are_ignored() {
    let mut counter = Counter::new();
    let mut queue = MessageQueue::new(10);
    counter.update(Message::Custom(7));
    assert_eq!(counter.count(), 7);
    let result = counter.handle_event(Event::Tick, &mut queue);
    assert_eq!(result, EventResult::Propagate);
    assert_eq!(counter.count(), 7);
    assert_eq!(queue.len(), 0);
}

#[test]
fn counter_renders_multi_digit_counts() {
    let counter = Counter { count: 12340 };
    let lines = counter.render(Rect::whole(80, 24));
    assert_eq!(lines, vec!["Count: 12340".to_string()]);
}

#[test]
fn message_queue_is_fifo_and_drops_when_full() {
    let mut queue = MessageQueue::new(2);
    assert!(queue.try_send(Message::Custom(1)));
    assert!(queue.try_send(Message::Custom(2)));
    // The queue is full: the third message is dropped, not queued.
    assert!(!queue.try_send(Message::Custom(3)));
    assert_eq!(queue.len(), 2);
    assert_eq!(queue.drain(), vec![Message::Custom(1), Message::Custom(2)]);
    assert_eq!(queue.len(), 0);
}
