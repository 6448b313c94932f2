use hardware_comm::event::Event;
use hardware_comm::session::App;

#[test]
fn new_session_is_empty() {
    let app = App::new(true);
    assert_eq!(app.log_lines().len(), 0);
    assert_eq!(app.total_messages(), 0);
    assert!(app.in_simulation_mode());
    assert!(!app.race_is_active());
    assert!(!app.quit_requested());
}

#[test]
fn add_message_renders_counted_line() {
    let mut app = App::new(false);
    app.add_message(String::from("first"));
    assert_eq!(app.log_lines().as_slice(), ["   1 | first"].as_slice());
    app.add_message(String::from("second"));
    assert_eq!(app.log_lines().as_slice(), ["   1 | first", "   2 | second"].as_slice());
    assert_eq!(app.total_messages(), 2);
}

#[test]
fn log_is_bounded_and_evicts_oldest() {
    let mut app = App::new(false);
    for i in 0..1001u32 {
        app.add_message(format!("m{}", i));
    }
    assert_eq!(app.log_lines().len(), 1000);
    assert_eq!(app.total_messages(), 1001);
    // The first appended line is gone; the most recent is present.
    assert!(!app.log_lines().iter().any(|l| l.ends_with("| m0")));
    assert_eq!(app.log_lines()[0], "   2 | m1");
    assert_eq!(app.log_lines()[999], "1001 | m1000");
}

#[test]
fn record_event_logs_rendered_event() {
    let mut app = App::new(false);
    app.record_event(&Event::Heartbeat);
    app.record_event(&Event::Status { message: String::from("hi") });
    assert_eq!(
        app.log_lines().as_slice(),
        ["   1 | [HEARTBEAT] \u{2665}", "   2 | [STATUS] hi"].as_slice()
    );
}

#[test]
fn quit_key_sets_shutdown_flag() {
    let mut app = App::new(false);
    let out = app.handle_key('q', 0);
    assert!(out.is_none());
    assert!(app.quit_requested());
}

#[test]
fn start_and_stop_keys_drive_the_race() {
    let mut app = App::new(true);
    match app.handle_key('s', 5000) {
        Some(Event::Status { message }) => assert_eq!(message, "Simulation race started"),
        other => panic!("expected status, got {:?}", other),
    }
    assert!(app.race_is_active());
    match app.handle_key('p', 9000) {
        Some(Event::Status { message }) => assert_eq!(message, "Simulation race stopped"),
        other => panic!("expected status, got {:?}", other),
    }
    assert!(!app.race_is_active());
}

#[test]
fn digit_key_simulates_lap_with_elapsed_time() {
    let mut app = App::new(true);
    app.handle_key('s', 5000);
    match app.handle_key('2', 6234) {
        Some(Event::Lap { racer_id, sensor_id, race_time }) => {
            assert_eq!(racer_id, 2);
            assert_eq!(sensor_id, 1);
            assert_eq!(race_time, "1.234");
        }
        other => panic!("expected lap, got {:?}", other),
    }
}

#[test]
fn digit_key_without_race_uses_zero_time() {
    let mut app = App::new(true);
    match app.handle_key('4', 6234) {
        Some(Event::Lap { racer_id, sensor_id, race_time }) => {
            assert_eq!(racer_id, 4);
            assert_eq!(sensor_id, 1);
            assert_eq!(race_time, "0.000");
        }
        other => panic!("expected lap, got {:?}", other),
    }
}

#[test]
fn simulation_keys_ignored_in_hardware_mode() {
    let mut app = App::new(false);
    assert!(app.handle_key('s', 100).is_none());
    assert!(app.handle_key('p', 100).is_none());
    assert!(app.handle_key('3', 100).is_none());
    assert!(!app.race_is_active());
    assert!(!app.quit_requested());
}

#[test]
fn unmapped_key_does_nothing() {
    let mut app = App::new(true);
    assert!(app.handle_key('x', 100).is_none());
    assert!(!app.race_is_active());
    assert!(!app.quit_requested());
}
