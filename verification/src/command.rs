//! Dispatch of typed commands from the inbound bus topic.  A known command
//! gives rise to at most one outbound event; an unknown command gives rise to
//! none and never stops the subscriber.

use vstd::prelude::*;

use crate::event::{event_wf, Event, EventV};
use crate::text::{all_digits, is_mantissa, spec_is_float_text, str_eq, strip_sign};

verus! {

/// What a command dispatches to.  `simulate_lap` substitutes racer 1,
/// sensor 1 and a zero time for any field the command left out; any command
/// word other than the three known ones dispatches to nothing.
pub open spec fn spec_dispatch(
    command: Seq<char>,
    racer_id: Option<u32>,
    sensor_id: Option<u32>,
    race_time: Option<Seq<char>>,
) -> Option<EventV> {
    if command == "start_race"@ {
        Some(EventV::Status { message: "Simulation race started"@ })
    } else if command == "stop_race"@ {
        Some(EventV::Status { message: "Simulation race stopped"@ })
    } else if command == "simulate_lap"@ {
        Some(
            EventV::Lap {
                racer_id: match racer_id {
                    Some(r) => r,
                    None => 1,
                },
                sensor_id: match sensor_id {
                    Some(s) => s,
                    None => 1,
                },
                race_time: match race_time {
                    Some(t) => t,
                    None => "0.0"@,
                },
            },
        )
    } else {
        None
    }
}

/// The default lap time text reads as a floating-point number.
pub proof fn lemma_default_time_is_float()
    ensures
        spec_is_float_text("0.0"@),
{
    reveal_strlit("0.0");
    let s = "0.0"@;
    assert(s.len() == 3 && s[0] == '0' && s[1] == '.' && s[2] == '0');
    assert(all_digits(s.take(1))) by {
        assert(s.take(1)[0] == '0');
    }
    assert(all_digits(s.skip(2))) by {
        assert(s.skip(2)[0] == '0');
    }
    assert(is_mantissa(s));
    assert(strip_sign(s) == s);
}

/// Dispatches one inbound command to the event it answers with, if any.
pub fn dispatch_command(
    command: &str,
    racer_id: Option<u32>,
    sensor_id: Option<u32>,
    race_time: Option<String>,
) -> (r: Option<Event>)
    requires
        race_time matches Some(t) ==> spec_is_float_text(t@),
    ensures
        r.deep_view() == spec_dispatch(command@, racer_id, sensor_id, race_time.deep_view()),
        r matches Some(e) ==> event_wf(e@),
{
    if str_eq(command, "start_race") {
        Some(Event::Status { message: String::from_str("Simulation race started") })
    } else if str_eq(command, "stop_race") {
        Some(Event::Status { message: String::from_str("Simulation race stopped") })
    } else if str_eq(command, "simulate_lap") {
        let rid: u32 = match racer_id {
            Some(r) => r,
            None => 1,
        };
        let sid: u32 = match sensor_id {
            Some(s) => s,
            None => 1,
        };
        let time_text: String = match race_time {
            Some(t) => t,
            None => {
                proof {
                    lemma_default_time_is_float();
                }
                String::from_str("0.0")
            },
        };
        Some(Event::Lap { racer_id: rid, sensor_id: sid, race_time: time_text })
    } else {
        None
    }
}

/// An unknown command word answers with no event at all.
pub proof fn lemma_unknown_command_is_silent(
    command: Seq<char>,
    racer_id: Option<u32>,
    sensor_id: Option<u32>,
    race_time: Option<Seq<char>>,
)
    requires
        command != "start_race"@,
        command != "stop_race"@,
        command != "simulate_lap"@,
    ensures
        spec_dispatch(command, racer_id, sensor_id, race_time) is None,
{
}

} // verus!
