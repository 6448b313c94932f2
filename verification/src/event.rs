//! The typed events exchanged with the message bus, their mathematical model,
//! and their rendering into session-log lines.

use vstd::prelude::*;

use crate::text::{push_decimal, spec_dec, spec_is_float_text};

verus! {

/// The model of an event: every text field is a character sequence.
#[verifier::ext_equal]
pub enum EventV {
    Lap { racer_id: u32, sensor_id: u32, race_time: Seq<char> },
    Heartbeat,
    Status { message: Seq<char> },
    Error { message: Seq<char> },
    Debug { message: Seq<char> },
    Raw { line: Seq<char> },
}

/// An event published on the outbound bus topic.  A lap's `race_time` is the
/// seconds value as text that reads as a floating-point number; keeping the
/// text keeps the device's value exact.
#[derive(Clone, Debug)]
pub enum Event {
    Lap { racer_id: u32, sensor_id: u32, race_time: String },
    Heartbeat,
    Status { message: String },
    Error { message: String },
    Debug { message: String },
    Raw { line: String },
}

impl View for Event {
    type V = EventV;

    open spec fn view(&self) -> EventV {
        match self {
            Event::Lap { racer_id, sensor_id, race_time } => EventV::Lap {
                racer_id: *racer_id,
                sensor_id: *sensor_id,
                race_time: race_time@,
            },
            Event::Heartbeat => EventV::Heartbeat,
            Event::Status { message } => EventV::Status { message: message@ },
            Event::Error { message } => EventV::Error { message: message@ },
            Event::Debug { message } => EventV::Debug { message: message@ },
            Event::Raw { line } => EventV::Raw { line: line@ },
        }
    }
}

impl DeepView for Event {
    type V = EventV;

    open spec fn deep_view(&self) -> EventV {
        self.view()
    }
}

/// A well-formed lap event carries a `race_time` that reads as a
/// floating-point number; every other event is well formed as it stands.
pub open spec fn event_wf(e: EventV) -> bool {
    match e {
        EventV::Lap { race_time, .. } => spec_is_float_text(race_time),
        _ => true,
    }
}

/// The session-log line for an event.
pub open spec fn spec_format_event(e: EventV) -> Seq<char> {
    match e {
        EventV::Lap { racer_id, sensor_id, race_time } => "[LAP] Racer "@ + spec_dec(
            racer_id as nat,
        ) + " - Sensor "@ + spec_dec(sensor_id as nat) + " - Time: "@ + race_time + "s"@,
        EventV::Heartbeat => "[HEARTBEAT] \u{2665}"@,
        EventV::Status { message } => "[STATUS] "@ + message,
        EventV::Error { message } => "[ERROR] "@ + message,
        EventV::Debug { message } => "[DEBUG] "@ + message,
        EventV::Raw { line } => "[RAW] "@ + line,
    }
}

/// Renders an event as one session-log line.
pub fn format_event(e: &Event) -> (r: String)
    ensures
        r@ == spec_format_event(e@),
{
    match e {
        Event::Lap { racer_id, sensor_id, race_time } => {
            let mut out = String::from_str("[LAP] Racer ");
            push_decimal(&mut out, *racer_id as u64);
            out.append(" - Sensor ");
            push_decimal(&mut out, *sensor_id as u64);
            out.append(" - Time: ");
            out.append(race_time.as_str());
            out.append("s");
            proof {
                assert(out@ =~= spec_format_event(e@));
            }
            out
        },
        Event::Heartbeat => String::from_str("[HEARTBEAT] \u{2665}"),
        Event::Status { message } => {
            let mut out = String::from_str("[STATUS] ");
            out.append(message.as_str());
            out
        },
        Event::Error { message } => {
            let mut out = String::from_str("[ERROR] ");
            out.append(message.as_str());
            out
        },
        Event::Debug { message } => {
            let mut out = String::from_str("[DEBUG] ");
            out.append(message.as_str());
            out
        },
        Event::Raw { line } => {
            let mut out = String::from_str("[RAW] ");
            out.append(line.as_str());
            out
        },
    }
}

} // verus!
