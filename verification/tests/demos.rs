use rillet_core::demos::{egui_counter, tui_counter};

#[test]
fn the_counter_counts_to_its_target_and_starts_over() {
    let mut counter = tui_counter::Counter::new();
    for _ in 0..30 {
        counter.step();
    }
    assert_eq!(counter.view().count, 30);
    counter.step();
    assert_eq!(counter.view().count, 0);
}

#[test]
fn a_paused_counter_stays() {
    let mut counter = tui_counter::Counter::new();
    counter.step();
    counter.toggle();
    counter.step();
    assert_eq!(
        counter.view(),
        tui_counter::CounterView { count: 1, target: 30, running: false }
    );
    counter.toggle();
    counter.step();
    assert_eq!(counter.view().count, 2);
    counter.reset();
    assert_eq!(counter.view().count, 0);
}

#[test]
fn keys_map_to_actions() {
    assert_eq!(tui_counter::read_key('q'), tui_counter::KeyAction::Quit);
    assert_eq!(tui_counter::read_key(' '), tui_counter::KeyAction::Toggle);
    assert_eq!(tui_counter::read_key('r'), tui_counter::KeyAction::Reset);
    assert_eq!(tui_counter::read_key('x'), tui_counter::KeyAction::Ignore);
}

#[test]
fn the_header_tells_the_state() {
    let mut counter = tui_counter::Counter::new();
    counter.step();
    assert_eq!(tui_counter::render_header(&counter.view()), "counter: 1 / 30 (running)");
    counter.toggle();
    assert_eq!(tui_counter::render_header(&counter.view()), "counter: 1 / 30 (paused)");
}

#[test]
fn the_status_line_follows_the_counter() {
    let mut counter = egui_counter::Counter::new();
    let mut status = egui_counter::Status::new();
    assert_eq!(status.view().message.as_str(), "");
    counter.add(12);
    counter.add(-15);
    status.on_counter_view(&counter.view());
    assert_eq!(status.view().message.as_str(), "counter is -3");
    counter.add(103);
    status.on_counter_view(&counter.view());
    assert_eq!(status.view().message.as_str(), "counter is 100");
    status.on_counter_view(&egui_counter::CounterView { value: i64::MIN });
    assert_eq!(status.view().message.as_str(), "counter is -9223372036854775808");
}
