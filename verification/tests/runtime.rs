//! End-to-end runs of the runtime over a real event channel.

use tui_base_framework::app::App;
use tui_base_framework::app::Phase;
use tui_base_framework::app::TickOutcome;
use tui_base_framework::event::Event;
use tui_base_framework::event::KeyCode;
use tui_base_framework::event::KeyInput;
use tui_base_framework::event::KeyMods;
use tui_base_framework::event::RawInput;
use tui_base_framework::event::decode_raw;
use tui_base_framework::examples::counter::Counter;
use tui_base_framework::Rect;

fn key(code: KeyCode) -> Event {
    Event::Key(KeyInput { code, mods: KeyMods::empty() })
}

fn render_lines(outcome: TickOutcome) -> Vec<String> {
    match outcome {
        TickOutcome::Render(lines) => lines,
        TickOutcome::Quit => panic!("expected a render, got a quit"),
    }
}

#[test]
fn counter_scenario_counts_and_quits() {
    let (tx, rx) = tokio::sync::mpsc::channel(100);
    let mut app = App::new(Counter::new(), rx, Rect::whole(80, 24));

    let lines = render_lines(app.tick());
    assert_eq!(lines, vec!["Count: 0".to_string()]);

    tx.try_send(key(KeyCode::Up)).unwrap();
    let lines = render_lines(app.tick());
    assert_eq!(lines, vec!["Count: 1".to_string()]);

    tx.try_send(key(KeyCode::Down)).unwrap();
    let lines = render_lines(app.tick());
    assert_eq!(lines, vec!["Count: 0".to_string()]);

    // One 'q' press terminates the run within the very tick that sees it.
    tx.try_send(key(KeyCode::Char('q'))).unwrap();
    match app.tick() {
        TickOutcome::Quit => {}
        TickOutcome::Render(_) => panic!("the runtime rendered after a quit request"),
    }
    assert_eq!(app.current_phase(), Phase::Draining);

    app.shutdown();
    assert_eq!(app.current_phase(), Phase::Stopped);
}

#[test]
fn events_are_dispatched_in_channel_order() {
    let (tx, rx) = tokio::sync::mpsc::channel(100);
    let mut app = App::new(Counter::new(), rx, Rect::whole(80, 24));

    // Down first (clamped at zero), then Up twice: order matters — the
    // reverse order would leave the counter at one.
    tx.try_send(key(KeyCode::Down)).unwrap();
    tx.try_send(key(KeyCode::Up)).unwrap();
    tx.try_send(key(KeyCode::Up)).unwrap();
    let lines = render_lines(app.tick());
    assert_eq!(lines, vec!["Count: 2".to_string()]);
    assert_eq!(app.component_ref().count(), 2);
}

#[test]
fn quiet_ticks_render_identically() {
    let (_tx, rx) = tokio::sync::mpsc::channel::<Event>(100);
    let mut app = App::new(Counter::new(), rx, Rect::whole(80, 24));

    let first = render_lines(app.tick());
    for _ in 0..5 {
        let lines = render_lines(app.tick());
        assert_eq!(lines, first);
    }
    assert_eq!(app.component_ref().count(), 0);
}

#[test]
fn timer_ticks_leave_the_render_unchanged() {
    let (tx, rx) = tokio::sync::mpsc::channel(100);
    let mut app = App::new(Counter::new(), rx, Rect::whole(80, 24));

    let before = render_lines(app.tick());
    for _ in 0..4 {
        tx.try_send(Event::Tick).unwrap();
    }
    let after = render_lines(app.tick());
    assert_eq!(after, before);
}

#[test]
fn resize_updates_the_render_area() {
    let (tx, rx) = tokio::sync::mpsc::channel(100);
    let mut app = App::new(Counter::new(), rx, Rect::whole(80, 24));
    assert_eq!(app.current_area(), Rect { x: 0, y: 0, width: 80, height: 24 });

    tx.try_send(Event::Resize(120, 40)).unwrap();
    let _ = render_lines(app.tick());
    assert_eq!(app.current_area(), Rect { x: 0, y: 0, width: 120, height: 40 });
}

#[test]
fn unrecognized_raw_input_is_dropped_and_the_run_goes_on() {
    // The decoder forwards nothing for an unrecognized raw item ...
    assert_eq!(decode_raw(RawInput::Other), None);
    // ... and recognized ones become events one for one.
    let press = KeyInput { code: KeyCode::Enter, mods: KeyMods::empty() };
    assert_eq!(decode_raw(RawInput::Key(press)), Some(Event::Key(press)));
    assert_eq!(decode_raw(RawInput::Resize(10, 5)), Some(Event::Resize(10, 5)));

    // The next tick proceeds with an unchanged component and a normal render.
    let (tx, rx) = tokio::sync::mpsc::channel(100);
    let mut app = App::new(Counter::new(), rx, Rect::whole(80, 24));
    let before = render_lines(app.tick());
    if let Some(event) = decode_raw(RawInput::Other) {
        tx.try_send(event).unwrap();
    }
    let after = render_lines(app.tick());
    assert_eq!(after, before);
    assert_eq!(app.component_ref().count(), 0);
}

#[test]
fn external_quit_message_stops_the_run() {
    let (_tx, rx) = tokio::sync::mpsc::channel::<Event>(100);
    let mut app = App::new(Counter::new(), rx, Rect::whole(80, 24));
    let _ = render_lines(app.tick());

    // A producer other than the component — here the test, standing in for a
    // background task — asks the run to quit through the message channel.
    let sender = app.message_sender();
    sender.try_send(tui_base_framework::Message::Quit).unwrap();
    match app.tick() {
        TickOutcome::Quit => {}
        TickOutcome::Render(_) => panic!("the runtime rendered after a quit request"),
    }
    assert_eq!(app.current_phase(), Phase::Draining);
}

#[test]
fn external_custom_message_reaches_the_component() {
    let (_tx, rx) = tokio::sync::mpsc::channel::<Event>(100);
    let mut app = App::new(Counter::new(), rx, Rect::whole(80, 24));

    let sender = app.message_sender();
    sender.try_send(tui_base_framework::Message::Custom(42)).unwrap();
    let lines = render_lines(app.tick());
    assert_eq!(lines, vec!["Count: 42".to_string()]);
    assert_eq!(app.component_ref().count(), 42);
}

#[test]
fn shutdown_discards_in_flight_events() {
    let (tx, rx) = tokio::sync::mpsc::channel(100);
    let mut app = App::new(Counter::new(), rx, Rect::whole(80, 24));

    tx.try_send(key(KeyCode::Char('q'))).unwrap();
    match app.tick() {
        TickOutcome::Quit => {}
        TickOutcome::Render(_) => panic!("the runtime rendered after a quit request"),
    }

    // Events still arriving while the run drains are discarded, not delivered.
    tx.try_send(key(KeyCode::Up)).unwrap();
    tx.try_send(key(KeyCode::Up)).unwrap();
    app.shutdown();
    assert_eq!(app.current_phase(), Phase::Stopped);
    assert_eq!(app.component_ref().count(), 0);
}
