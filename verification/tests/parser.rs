use hardware_comm::event::Event;
use hardware_comm::parse::parse_hardware_line;

#[test]
fn plain_line_is_raw() {
    match parse_hardware_line("hello world") {
        Some(Event::Raw { line }) => assert_eq!(line, "hello world"),
        other => panic!("expected raw line, got {:?}", other),
    }
}

#[test]
fn soh_without_marker_is_raw() {
    match parse_hardware_line("\x01z123") {
        Some(Event::Raw { line }) => assert_eq!(line, "\x01z123"),
        other => panic!("expected raw line, got {:?}", other),
    }
}

#[test]
fn bare_soh_is_raw() {
    match parse_hardware_line("\x01") {
        Some(Event::Raw { line }) => assert_eq!(line, "\x01"),
        other => panic!("expected raw line, got {:?}", other),
    }
}

#[test]
fn empty_line_is_no_event() {
    assert!(parse_hardware_line("").is_none());
}

#[test]
fn heartbeat_line_with_signature() {
    match parse_hardware_line("\x01#junk xC249 trailing garbage") {
        Some(Event::Heartbeat) => {}
        other => panic!("expected heartbeat, got {:?}", other),
    }
}

#[test]
fn heartbeat_marker_without_signature_is_raw() {
    match parse_hardware_line("\x01#nothing here") {
        Some(Event::Raw { line }) => assert_eq!(line, "\x01#nothing here"),
        other => panic!("expected raw line, got {:?}", other),
    }
}

#[test]
fn lap_line_parses_fields() {
    match parse_hardware_line("\x01@\t5\tx\t3\t1.5\ty") {
        Some(Event::Lap { racer_id, sensor_id, race_time }) => {
            assert_eq!(racer_id, 3);
            assert_eq!(sensor_id, 5);
            assert_eq!(race_time, "1.5");
        }
        other => panic!("expected lap, got {:?}", other),
    }
}

#[test]
fn lap_line_with_plus_signs_and_exponent() {
    match parse_hardware_line("\x01@\t+12\t?\t+7\t2e3\t-\textra") {
        Some(Event::Lap { racer_id, sensor_id, race_time }) => {
            assert_eq!(racer_id, 7);
            assert_eq!(sensor_id, 12);
            assert_eq!(race_time, "2e3");
        }
        other => panic!("expected lap, got {:?}", other),
    }
}

#[test]
fn lap_line_too_few_fields_is_malformed() {
    match parse_hardware_line("\x01@\t5\tx\t3\t1.5") {
        Some(Event::Status { message }) => {
            assert_eq!(message, "Malformed lap line: \x01@\t5\tx\t3\t1.5");
        }
        other => panic!("expected malformed status, got {:?}", other),
    }
}

#[test]
fn lap_line_bad_racer_id_is_malformed() {
    match parse_hardware_line("\x01@\t5\tx\t3a\t1.5\ty") {
        Some(Event::Status { message }) => {
            assert!(message.starts_with("Malformed lap line: "));
        }
        other => panic!("expected malformed status, got {:?}", other),
    }
}

#[test]
fn lap_line_bad_time_is_malformed() {
    match parse_hardware_line("\x01@\t5\tx\t3\t1.5.2\ty") {
        Some(Event::Status { message }) => {
            assert!(message.starts_with("Malformed lap line: "));
        }
        other => panic!("expected malformed status, got {:?}", other),
    }
}

#[test]
fn lap_line_overflowing_sensor_is_malformed() {
    match parse_hardware_line("\x01@\t4294967296\tx\t3\t1.5\ty") {
        Some(Event::Status { message }) => {
            assert!(message.starts_with("Malformed lap line: "));
        }
        other => panic!("expected malformed status, got {:?}", other),
    }
}

#[test]
fn new_msg_line_is_forwarded_verbatim() {
    match parse_hardware_line("\x01$\t9\t123\t0\t1") {
        Some(Event::Raw { line }) => assert_eq!(line, "\x01$\t9\t123\t0\t1"),
        other => panic!("expected raw line, got {:?}", other),
    }
}

#[test]
fn new_msg_line_too_few_fields_is_malformed() {
    match parse_hardware_line("\x01$\t9\t123") {
        Some(Event::Status { message }) => {
            assert_eq!(message, "Malformed new_msg line: \x01$\t9\t123");
        }
        other => panic!("expected malformed status, got {:?}", other),
    }
}
