use hardware_comm::event::{format_event, Event};
use hardware_comm::heartbeat::HeartbeatMonitor;
use hardware_comm::worker::{phase_step, reader_step, simulation_step, Phase, ReadOutcome};

#[test]
fn shutdown_stops_a_worker_within_two_boundaries() {
    let mut p = Phase::Running;
    p = phase_step(p, true);
    assert_eq!(p, Phase::Draining);
    p = phase_step(p, true);
    assert_eq!(p, Phase::Stopped);
    p = phase_step(p, true);
    assert_eq!(p, Phase::Stopped);
}

#[test]
fn worker_runs_while_no_shutdown_is_asked() {
    let mut p = Phase::Running;
    for _ in 0..10 {
        p = phase_step(p, false);
        assert_eq!(p, Phase::Running);
    }
}

#[test]
fn monitor_reports_loss_once_and_rearms() {
    let mut m = HeartbeatMonitor::new(0);
    // Not yet past the timeout.
    assert!(!m.tick(10_000));
    // Past the timeout: exactly one loss fires.
    assert!(m.tick(10_001));
    // Re-armed: quiet until another full timeout elapses.
    assert!(!m.tick(15_000));
    assert!(!m.tick(20_001));
    assert!(m.tick(20_002));
}

#[test]
fn heartbeat_resets_the_loss_timer() {
    let mut m = HeartbeatMonitor::new(0);
    m.observe(9_000);
    assert!(!m.tick(19_000));
    assert!(m.tick(19_001));
}

#[test]
fn reader_quiet_attempt_publishes_nothing() {
    let mut m = HeartbeatMonitor::new(0);
    let events = reader_step(&mut m, &ReadOutcome::Quiet, 50_000);
    assert!(events.is_empty());
    // Quiet attempts skip the staleness poll entirely.
    let events = reader_step(&mut m, &ReadOutcome::Quiet, 50_000);
    assert!(events.is_empty());
}

#[test]
fn reader_heartbeat_line_feeds_the_monitor() {
    let mut m = HeartbeatMonitor::new(0);
    let events = reader_step(&mut m, &ReadOutcome::Line(String::from("\x01#xC249")), 50_000);
    assert_eq!(events.len(), 1);
    assert!(matches!(events[0], Event::Heartbeat));
    // The heartbeat was observed, so the next poll shortly after stays quiet.
    let events = reader_step(&mut m, &ReadOutcome::Line(String::from("data")), 55_000);
    assert_eq!(events.len(), 1);
    assert!(matches!(events[0], Event::Raw { .. }));
}

#[test]
fn reader_stale_line_adds_loss_report() {
    let mut m = HeartbeatMonitor::new(0);
    let events = reader_step(&mut m, &ReadOutcome::Line(String::from("data")), 50_000);
    assert_eq!(events.len(), 2);
    assert!(matches!(&events[0], Event::Raw { line } if line == "data"));
    assert!(matches!(&events[1], Event::Status { message } if message == "Heartbeat lost"));
    // Re-armed: the follow-up poll is quiet.
    let events = reader_step(&mut m, &ReadOutcome::Line(String::from("data")), 51_000);
    assert_eq!(events.len(), 1);
}

#[test]
fn reader_failure_reports_diagnostic_and_continues() {
    let mut m = HeartbeatMonitor::new(0);
    let events = reader_step(&mut m, &ReadOutcome::Failed(String::from("device gone")), 1_000);
    assert_eq!(events.len(), 1);
    assert!(
        matches!(&events[0], Event::Status { message } if message == "Error reading serial: device gone")
    );
}

#[test]
fn empty_line_publishes_nothing_but_still_polls() {
    let mut m = HeartbeatMonitor::new(0);
    let events = reader_step(&mut m, &ReadOutcome::Line(String::new()), 50_000);
    assert_eq!(events.len(), 1);
    assert!(matches!(&events[0], Event::Status { message } if message == "Heartbeat lost"));
}

#[test]
fn simulation_heartbeat_cadence() {
    let mut last = 0u64;
    assert!(simulation_step(&mut last, 1_999).is_none());
    assert!(matches!(simulation_step(&mut last, 2_000), Some(Event::Heartbeat)));
    assert_eq!(last, 2_000);
    assert!(simulation_step(&mut last, 3_999).is_none());
    assert!(matches!(simulation_step(&mut last, 4_100), Some(Event::Heartbeat)));
    assert_eq!(last, 4_100);
}

#[test]
fn event_rendering() {
    let lap = Event::Lap { racer_id: 3, sensor_id: 1, race_time: String::from("1.5") };
    assert_eq!(format_event(&lap), "[LAP] Racer 3 - Sensor 1 - Time: 1.5s");
    assert_eq!(format_event(&Event::Heartbeat), "[HEARTBEAT] \u{2665}");
    assert_eq!(
        format_event(&Event::Status { message: String::from("ok") }),
        "[STATUS] ok"
    );
    assert_eq!(
        format_event(&Event::Error { message: String::from("bad") }),
        "[ERROR] bad"
    );
    assert_eq!(
        format_event(&Event::Debug { message: String::from("dbg") }),
        "[DEBUG] dbg"
    );
    assert_eq!(format_event(&Event::Raw { line: String::from("x") }), "[RAW] x");
}
