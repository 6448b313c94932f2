//! What every worker loop decides each iteration: the cooperative shutdown
//! phases, one step of the hardware reader, and one step of the simulation
//! heartbeat cadence.  The loops themselves, with their blocking reads and
//! bus calls, run outside the library and feed these functions plain values.

use vstd::prelude::*;

use crate::event::{event_wf, Event, EventV};
use crate::heartbeat::{spec_stale, HeartbeatMonitor, HEARTBEAT_TIMEOUT_MS};
use crate::parse::{parse_hardware_line, spec_parse};

verus! {

/// The life of one worker: it runs until it observes the shutdown flag, then
/// finishes its current unit of work and stops for good.
#[derive(Clone, Copy, Debug, PartialEq, Eq, Structural)]
pub enum Phase {
    Running,
    Draining,
    Stopped,
}

/// One observation of the shutdown flag at a loop iteration boundary.
pub open spec fn spec_phase_step(p: Phase, shutdown: bool) -> Phase {
    match p {
        Phase::Running => if shutdown {
            Phase::Draining
        } else {
            Phase::Running
        },
        Phase::Draining => Phase::Stopped,
        Phase::Stopped => Phase::Stopped,
    }
}

/// Advances a worker's phase for one iteration boundary.
pub fn phase_step(p: Phase, shutdown: bool) -> (r: Phase)
    ensures
        r == spec_phase_step(p, shutdown),
{
    match p {
        Phase::Running => if shutdown {
            Phase::Draining
        } else {
            Phase::Running
        },
        Phase::Draining => Phase::Stopped,
        Phase::Stopped => Phase::Stopped,
    }
}

/// Once the shutdown flag is set (and it never clears), every worker is
/// stopped within two iteration boundaries: one to observe the flag and one
/// to finish the current unit of work.
pub proof fn lemma_shutdown_stops_every_worker(p: Phase)
    ensures
        spec_phase_step(spec_phase_step(p, true), true) == Phase::Stopped,
{
}

/// A stopped worker never runs again.
pub proof fn lemma_stopped_is_terminal(shutdown: bool)
    ensures
        spec_phase_step(Phase::Stopped, shutdown) == Phase::Stopped,
{
}

/// While nobody asks for shutdown, a running worker keeps running.
pub proof fn lemma_no_shutdown_keeps_running()
    ensures
        spec_phase_step(Phase::Running, false) == Phase::Running,
{
}

/// The outcome of one bounded read attempt on the serial line, as the reader
/// loop hands it in: a framed line of text, nothing within the timeout, or a
/// recoverable transport failure described by its message.
pub enum ReadOutcome {
    Line(String),
    Quiet,
    Failed(String),
}

#[verifier::ext_equal]
pub enum ReadOutcomeV {
    Line(Seq<char>),
    Quiet,
    Failed(Seq<char>),
}

impl View for ReadOutcome {
    type V = ReadOutcomeV;

    open spec fn view(&self) -> ReadOutcomeV {
        match self {
            ReadOutcome::Line(l) => ReadOutcomeV::Line(l@),
            ReadOutcome::Quiet => ReadOutcomeV::Quiet,
            ReadOutcome::Failed(m) => ReadOutcomeV::Failed(m@),
        }
    }
}

/// When the monitor last saw a heartbeat after a line was handled.
pub open spec fn spec_last_after_line(last_seen: u64, line: Seq<char>, now_ms: u64) -> u64 {
    if spec_parse(line) == Some(EventV::Heartbeat) {
        now_ms
    } else {
        last_seen
    }
}

/// The loss report a staleness poll adds, if any.
pub open spec fn spec_loss_events(last_seen: u64, now_ms: u64) -> Seq<EventV> {
    if spec_stale(last_seen, now_ms) {
        seq![EventV::Status { message: "Heartbeat lost"@ }]
    } else {
        Seq::<EventV>::empty()
    }
}

/// Every event one reader step publishes, in order.  A quiet attempt (no
/// data, or a read timeout) publishes nothing and skips the staleness poll;
/// a line publishes what it parses to and then polls; a transport failure
/// reports a status diagnostic and then polls.
pub open spec fn spec_reader_events(last_seen: u64, outcome: ReadOutcomeV, now_ms: u64) -> Seq<
    EventV,
> {
    match outcome {
        ReadOutcomeV::Quiet => Seq::<EventV>::empty(),
        ReadOutcomeV::Line(l) => {
            let parsed = match spec_parse(l) {
                Some(e) => seq![e],
                None => Seq::<EventV>::empty(),
            };
            parsed + spec_loss_events(spec_last_after_line(last_seen, l, now_ms), now_ms)
        },
        ReadOutcomeV::Failed(m) => seq![
            EventV::Status {
                message: "Error reading serial: "@ + m,
            },
        ] + spec_loss_events(last_seen, now_ms),
    }
}

/// The monitor's state after one reader step.
pub open spec fn spec_reader_last(last_seen: u64, outcome: ReadOutcomeV, now_ms: u64) -> u64 {
    match outcome {
        ReadOutcomeV::Quiet => last_seen,
        ReadOutcomeV::Line(l) => {
            let after = spec_last_after_line(last_seen, l, now_ms);
            if spec_stale(after, now_ms) {
                now_ms
            } else {
                after
            }
        },
        ReadOutcomeV::Failed(_) => if spec_stale(last_seen, now_ms) {
            now_ms
        } else {
            last_seen
        },
    }
}

/// One iteration of the hardware reader after its read attempt: parses a
/// line into its event, notes a heartbeat, reports a transport failure, and
/// polls the monitor for a loss.  Returns the events to publish, in order.
pub fn reader_step(monitor: &mut HeartbeatMonitor, outcome: &ReadOutcome, now_ms: u64) -> (events:
    Vec<Event>)
    ensures
        events.deep_view() == spec_reader_events(old(monitor)@, outcome@, now_ms),
        final(monitor)@ == spec_reader_last(old(monitor)@, outcome@, now_ms),
        forall|i: int| 0 <= i < events.len() ==> event_wf(#[trigger] events.deep_view()[i]),
{
    let mut events: Vec<Event> = Vec::new();
    match outcome {
        ReadOutcome::Quiet => {
            proof {
                assert(events.deep_view() =~= spec_reader_events(old(monitor)@, outcome@, now_ms));
            }
        },
        ReadOutcome::Line(l) => {
            let parsed = parse_hardware_line(l.as_str());
            if let Some(e) = parsed {
                if matches!(e, Event::Heartbeat) {
                    monitor.observe(now_ms);
                }
                let ghost before = events.deep_view();
                events.push(e);
                proof {
                    assert(events.deep_view() =~= before.push(e@));
                }
            }
            if monitor.tick(now_ms) {
                let ghost before = events.deep_view();
                events.push(Event::Status { message: String::from_str("Heartbeat lost") });
                proof {
                    assert(events.deep_view() =~= before.push(
                        EventV::Status { message: "Heartbeat lost"@ },
                    ));
                }
            }
            proof {
                assert(events.deep_view() =~= spec_reader_events(old(monitor)@, outcome@, now_ms));
            }
        },
        ReadOutcome::Failed(m) => {
            let mut message = String::from_str("Error reading serial: ");
            message.append(m.as_str());
            let ghost before = events.deep_view();
            events.push(Event::Status { message });
            proof {
                assert(events.deep_view() =~= before.push(
                    EventV::Status { message: "Error reading serial: "@ + m@ },
                ));
            }
            if monitor.tick(now_ms) {
                let ghost before2 = events.deep_view();
                events.push(Event::Status { message: String::from_str("Heartbeat lost") });
                proof {
                    assert(events.deep_view() =~= before2.push(
                        EventV::Status { message: "Heartbeat lost"@ },
                    ));
                }
            }
            proof {
                assert(events.deep_view() =~= spec_reader_events(old(monitor)@, outcome@, now_ms));
            }
        },
    }
    events
}

/// No parsed line ever reads as the monitor's loss report: the status events
/// the parser makes all carry a longer, prefixed message.
pub proof fn lemma_parse_never_reports_loss(l: Seq<char>)
    ensures
        spec_parse(l) != Some(EventV::Status { message: "Heartbeat lost"@ }),
{
    reveal_strlit("Malformed lap line: ");
    reveal_strlit("Malformed new_msg line: ");
    reveal_strlit("Heartbeat lost");
    assert("Heartbeat lost"@.len() == 14);
    assert(("Malformed lap line: "@ + l).len() >= 20);
    assert(("Malformed new_msg line: "@ + l).len() >= 24);
}

/// A reader step publishes a loss report exactly when its staleness poll
/// found the device silent for too long; nothing else in the step can
/// produce that event.
pub proof fn lemma_loss_in_events_iff_stale(last_seen: u64, outcome: ReadOutcomeV, now_ms: u64)
    ensures
        spec_reader_events(last_seen, outcome, now_ms).contains(
            EventV::Status { message: "Heartbeat lost"@ },
        ) <==> (match outcome {
            ReadOutcomeV::Quiet => false,
            ReadOutcomeV::Line(l) => spec_stale(spec_last_after_line(last_seen, l, now_ms), now_ms),
            ReadOutcomeV::Failed(_) => spec_stale(last_seen, now_ms),
        }),
{
    let loss = EventV::Status { message: "Heartbeat lost"@ };
    let events = spec_reader_events(last_seen, outcome, now_ms);
    match outcome {
        ReadOutcomeV::Quiet => {
            assert(!events.contains(loss));
        },
        ReadOutcomeV::Line(l) => {
            lemma_parse_never_reports_loss(l);
            let parsed = match spec_parse(l) {
                Some(e) => seq![e],
                None => Seq::<EventV>::empty(),
            };
            let after = spec_last_after_line(last_seen, l, now_ms);
            if spec_stale(after, now_ms) {
                assert(events[parsed.len() as int] == loss);
                assert(events.contains(loss));
            } else {
                assert forall|i: int| 0 <= i < events.len() implies events[i] != loss by {
                    assert(events[i] == parsed[i]);
                }
            }
        },
        ReadOutcomeV::Failed(m) => {
            let reported = EventV::Status { message: "Error reading serial: "@ + m };
            assert(reported != loss) by {
                reveal_strlit("Error reading serial: ");
                reveal_strlit("Heartbeat lost");
                assert("Heartbeat lost"@.len() == 14);
                assert(("Error reading serial: "@ + m).len() >= 22);
            }
            if spec_stale(last_seen, now_ms) {
                assert(events[1] == loss);
                assert(events.contains(loss));
            } else {
                assert forall|i: int| 0 <= i < events.len() implies events[i] != loss by {
                    assert(events[i] == reported);
                }
            }
        },
    }
}

/// Once a reader step reports a loss, the next step's staleness poll stays
/// quiet for a full timeout, whatever that step reads: the report re-armed
/// the monitor.
pub proof fn lemma_loss_reported_once_per_step(
    last_seen: u64,
    outcome1: ReadOutcomeV,
    t1: u64,
    outcome2: ReadOutcomeV,
    t2: u64,
)
    requires
        spec_reader_events(last_seen, outcome1, t1).contains(
            EventV::Status { message: "Heartbeat lost"@ },
        ),
        t1 <= t2 <= t1 + HEARTBEAT_TIMEOUT_MS,
    ensures
        !spec_reader_events(spec_reader_last(last_seen, outcome1, t1), outcome2, t2).contains(
            EventV::Status { message: "Heartbeat lost"@ },
        ),
{
    lemma_loss_in_events_iff_stale(last_seen, outcome1, t1);
    let last2 = spec_reader_last(last_seen, outcome1, t1);
    assert(last2 == t1);
    lemma_loss_in_events_iff_stale(last2, outcome2, t2);
    match outcome2 {
        ReadOutcomeV::Quiet => {},
        ReadOutcomeV::Line(l) => {
            assert(!spec_stale(spec_last_after_line(last2, l, t2), t2));
        },
        ReadOutcomeV::Failed(_) => {
            assert(!spec_stale(last2, t2));
        },
    }
}

/// A heartbeat line keeps the next step's staleness poll quiet for a full
/// timeout from the instant it was read.
pub proof fn lemma_heartbeat_line_resets_loss(
    last_seen: u64,
    line: Seq<char>,
    t1: u64,
    outcome2: ReadOutcomeV,
    t2: u64,
)
    requires
        spec_parse(line) == Some(EventV::Heartbeat),
        t1 <= t2 <= t1 + HEARTBEAT_TIMEOUT_MS,
    ensures
        !spec_reader_events(
            spec_reader_last(last_seen, ReadOutcomeV::Line(line), t1),
            outcome2,
            t2,
        ).contains(EventV::Status { message: "Heartbeat lost"@ }),
{
    let last2 = spec_reader_last(last_seen, ReadOutcomeV::Line(line), t1);
    assert(last2 == t1);
    lemma_loss_in_events_iff_stale(last2, outcome2, t2);
}

/// The simulation publishes a heartbeat once this much time has passed since
/// the previous one, in milliseconds.
pub const SIM_HEARTBEAT_PERIOD_MS: u64 = 2_000;

/// The cadence is due once a full period has elapsed.
pub open spec fn spec_heartbeat_due(last_sent_ms: u64, now_ms: u64) -> bool {
    now_ms >= last_sent_ms + SIM_HEARTBEAT_PERIOD_MS
}

/// One tick of the simulation worker: publishes a heartbeat on its fixed
/// cadence and remembers when it last did.
pub fn simulation_step(last_sent_ms: &mut u64, now_ms: u64) -> (r: Option<Event>)
    requires
        *old(last_sent_ms) <= now_ms,
    ensures
        r.deep_view() == if spec_heartbeat_due(*old(last_sent_ms), now_ms) {
            Some(EventV::Heartbeat)
        } else {
            None::<EventV>
        },
        *final(last_sent_ms) == if spec_heartbeat_due(*old(last_sent_ms), now_ms) {
            now_ms
        } else {
            *old(last_sent_ms)
        },
{
    if now_ms - *last_sent_ms >= SIM_HEARTBEAT_PERIOD_MS {
        *last_sent_ms = now_ms;
        Some(Event::Heartbeat)
    } else {
        None
    }
}

} // verus!
