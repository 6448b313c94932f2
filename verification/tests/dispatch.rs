use hardware_comm::command::dispatch_command;
use hardware_comm::event::Event;

#[test]
fn start_race_answers_with_status() {
    match dispatch_command("start_race", None, None, None) {
        Some(Event::Status { message }) => assert_eq!(message, "Simulation race started"),
        other => panic!("expected status, got {:?}", other),
    }
}

#[test]
fn stop_race_answers_with_status() {
    match dispatch_command("stop_race", None, None, None) {
        Some(Event::Status { message }) => assert_eq!(message, "Simulation race stopped"),
        other => panic!("expected status, got {:?}", other),
    }
}

#[test]
fn simulate_lap_defaults_every_field() {
    match dispatch_command("simulate_lap", None, None, None) {
        Some(Event::Lap { racer_id, sensor_id, race_time }) => {
            assert_eq!(racer_id, 1);
            assert_eq!(sensor_id, 1);
            assert_eq!(race_time, "0.0");
        }
        other => panic!("expected lap, got {:?}", other),
    }
}

#[test]
fn simulate_lap_keeps_given_fields() {
    match dispatch_command("simulate_lap", Some(9), Some(2), Some(String::from("3.25"))) {
        Some(Event::Lap { racer_id, sensor_id, race_time }) => {
            assert_eq!(racer_id, 9);
            assert_eq!(sensor_id, 2);
            assert_eq!(race_time, "3.25");
        }
        other => panic!("expected lap, got {:?}", other),
    }
}

#[test]
fn unknown_command_answers_with_nothing() {
    assert!(dispatch_command("self_destruct", None, None, None).is_none());
    assert!(dispatch_command("", None, None, None).is_none());
    assert!(dispatch_command("START_RACE", None, None, None).is_none());
}
