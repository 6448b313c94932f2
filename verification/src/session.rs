//! Shared session state: the bounded message log, the monotone message
//! counter, the race flags, and the one-directional shutdown flag.  The
//! surrounding process guards one `App` value with a lock and keeps every
//! critical section short; all the logic on the state lives here.

use vstd::prelude::*;

use crate::event::{event_wf, format_event, spec_format_event, Event, EventV};
use crate::text::{
    lemma_seconds_text_is_float, push_pad4, seconds_text, spec_dec, spec_pad4, spec_seconds_text,
    u64_to_dec,
};

verus! {

/// The log keeps at most this many rendered lines; the oldest leaves first.
pub const LOG_CAPACITY: usize = 1000;

/// The model of the session state.
#[verifier::ext_equal]
pub struct AppV {
    pub messages: Seq<Seq<char>>,
    pub message_count: nat,
    pub simulation_mode: bool,
    pub race_active: bool,
    pub race_start_time: Option<u64>,
    pub should_quit: bool,
}

impl AppV {
    /// The session invariants: the log is bounded, the counter counts every
    /// line ever appended, and a race is active exactly while its start time
    /// is recorded.
    pub open spec fn wf(self) -> bool {
        &&& self.messages.len() <= LOG_CAPACITY
        &&& self.message_count >= self.messages.len()
        &&& (self.race_start_time is Some <==> self.race_active)
    }
}

/// One rendered log line: the running count padded to four columns, a
/// separator, then the message.
pub open spec fn spec_render_line(count: nat, msg: Seq<char>) -> Seq<char> {
    spec_pad4(spec_dec(count)) + " | "@ + msg
}

/// The log after appending one line: the line goes at the end, and the oldest
/// line leaves if the log would outgrow its capacity.
pub open spec fn spec_append_log(log: Seq<Seq<char>>, line: Seq<char>) -> Seq<Seq<char>> {
    let grown = log.push(line);
    if grown.len() > LOG_CAPACITY {
        grown.skip(1)
    } else {
        grown
    }
}

/// Session state shared by every worker.
pub struct App {
    messages: Vec<String>,
    message_count: usize,
    simulation_mode: bool,
    race_active: bool,
    race_start_time: Option<u64>,
    should_quit: bool,
}

impl View for App {
    type V = AppV;

    closed spec fn view(&self) -> AppV {
        AppV {
            messages: self.messages.deep_view(),
            message_count: self.message_count as nat,
            simulation_mode: self.simulation_mode,
            race_active: self.race_active,
            race_start_time: self.race_start_time,
            should_quit: self.should_quit,
        }
    }
}

/// The state after a key is handled: `q` asks for shutdown; in simulation
/// mode `s` starts a race at the given instant and `p` stops it; everything
/// else leaves the state alone.
pub open spec fn spec_handle_key_state(v: AppV, key: char, now_ms: u64) -> AppV {
    if key == 'q' || key == 'Q' {
        AppV { should_quit: true, ..v }
    } else if (key == 's' || key == 'S') && v.simulation_mode {
        AppV { race_active: true, race_start_time: Some(now_ms), ..v }
    } else if (key == 'p' || key == 'P') && v.simulation_mode {
        AppV { race_active: false, race_start_time: None, ..v }
    } else {
        v
    }
}

/// The event a key gives rise to: starting or stopping a race reports a
/// status, and in simulation mode the keys `1` to `4` simulate a lap for that
/// racer at the time elapsed since the race started.
pub open spec fn spec_handle_key_event(v: AppV, key: char, now_ms: u64) -> Option<EventV> {
    if key == 'q' || key == 'Q' {
        None
    } else if (key == 's' || key == 'S') && v.simulation_mode {
        Some(EventV::Status { message: "Simulation race started"@ })
    } else if (key == 'p' || key == 'P') && v.simulation_mode {
        Some(EventV::Status { message: "Simulation race stopped"@ })
    } else if '1' <= key && key <= '4' && v.simulation_mode {
        let elapsed: nat = match v.race_start_time {
            Some(t) => (now_ms - t) as nat,
            None => 0,
        };
        Some(
            EventV::Lap {
                racer_id: (key as u32 - '0' as u32) as u32,
                sensor_id: 1,
                race_time: spec_seconds_text(elapsed),
            },
        )
    } else {
        None
    }
}

impl App {
    /// A fresh session: empty log, zero count, no race, no shutdown asked.
    pub fn new(simulation_mode: bool) -> (r: App)
        ensures
            r@ == (AppV {
                messages: Seq::<Seq<char>>::empty(),
                message_count: 0,
                simulation_mode,
                race_active: false,
                race_start_time: None::<u64>,
                should_quit: false,
            }),
            r@.wf(),
    {
        let r = App {
            messages: Vec::new(),
            message_count: 0,
            simulation_mode,
            race_active: false,
            race_start_time: None,
            should_quit: false,
        };
        proof {
            assert(r@.messages =~= Seq::<Seq<char>>::empty());
            assert(r@ =~= (AppV {
                messages: Seq::<Seq<char>>::empty(),
                message_count: 0,
                simulation_mode,
                race_active: false,
                race_start_time: None::<u64>,
                should_quit: false,
            }));
        }
        r
    }

    /// Appends one message to the log: the counter grows by one, the rendered
    /// line goes at the end, and the oldest line leaves once the log is full.
    pub fn add_message(&mut self, msg: String)
        requires
            old(self)@.wf(),
            old(self)@.message_count < usize::MAX,
        ensures
            final(self)@.wf(),
            final(self)@.message_count == old(self)@.message_count + 1,
            final(self)@.messages == spec_append_log(
                old(self)@.messages,
                spec_render_line(old(self)@.message_count + 1, msg@),
            ),
            final(self)@.simulation_mode == old(self)@.simulation_mode,
            final(self)@.race_active == old(self)@.race_active,
            final(self)@.race_start_time == old(self)@.race_start_time,
            final(self)@.should_quit == old(self)@.should_quit,
    {
        self.message_count = self.message_count + 1;
        let dec = u64_to_dec(self.message_count as u64);
        let mut line = String::new();
        push_pad4(&mut line, dec.as_str());
        line.append(" | ");
        line.append(msg.as_str());
        proof {
            assert(line@ =~= spec_render_line(old(self)@.message_count + 1, msg@));
        }
        let ghost before = self.messages.deep_view();
        self.messages.push(line);
        proof {
            assert(self.messages.deep_view() =~= before.push(line@));
        }
        if self.messages.len() > LOG_CAPACITY {
            let ghost grown = self.messages.deep_view();
            self.messages.remove(0);
            proof {
                assert(self.messages.deep_view() =~= grown.skip(1));
            }
        }
        proof {
            assert(final(self)@.messages =~= spec_append_log(
                old(self)@.messages,
                spec_render_line(old(self)@.message_count + 1, msg@),
            ));
        }
    }

    /// Renders an event and appends it to the log.
    pub fn record_event(&mut self, e: &Event)
        requires
            old(self)@.wf(),
            old(self)@.message_count < usize::MAX,
        ensures
            final(self)@.wf(),
            final(self)@.message_count == old(self)@.message_count + 1,
            final(self)@.messages == spec_append_log(
                old(self)@.messages,
                spec_render_line(old(self)@.message_count + 1, spec_format_event(e@)),
            ),
            final(self)@.simulation_mode == old(self)@.simulation_mode,
            final(self)@.race_active == old(self)@.race_active,
            final(self)@.race_start_time == old(self)@.race_start_time,
            final(self)@.should_quit == old(self)@.should_quit,
    {
        let line = format_event(e);
        self.add_message(line);
    }

    /// Handles one key press, returning the event to publish, if any.
    pub fn handle_key(&mut self, key: char, now_ms: u64) -> (r: Option<Event>)
        requires
            old(self)@.wf(),
            old(self)@.race_start_time matches Some(t) ==> t <= now_ms,
        ensures
            final(self)@.wf(),
            final(self)@ == spec_handle_key_state(old(self)@, key, now_ms),
            r.deep_view() == spec_handle_key_event(old(self)@, key, now_ms),
            r matches Some(e) ==> event_wf(e@),
    {
        if key == 'q' || key == 'Q' {
            self.should_quit = true;
            None
        } else if (key == 's' || key == 'S') && self.simulation_mode {
            self.race_active = true;
            self.race_start_time = Some(now_ms);
            Some(Event::Status { message: String::from_str("Simulation race started") })
        } else if (key == 'p' || key == 'P') && self.simulation_mode {
            self.race_active = false;
            self.race_start_time = None;
            Some(Event::Status { message: String::from_str("Simulation race stopped") })
        } else if '1' <= key && key <= '4' && self.simulation_mode {
            let elapsed: u64 = match self.race_start_time {
                Some(t) => now_ms - t,
                None => 0,
            };
            let racer_id: u32 = key as u32 - '0' as u32;
            let race_time = seconds_text(elapsed);
            proof {
                lemma_seconds_text_is_float(elapsed as nat);
            }
            Some(Event::Lap { racer_id, sensor_id: 1, race_time })
        } else {
            None
        }
    }

    /// Whether the user has asked the process to stop.  The flag only ever
    /// goes from false to true: no method of this type clears it.
    pub fn quit_requested(&self) -> (r: bool)
        ensures
            r == self@.should_quit,
    {
        self.should_quit
    }

    /// A borrowed view of the rendered log lines, oldest first.
    pub fn log_lines(&self) -> (r: &Vec<String>)
        ensures
            r.deep_view() == self@.messages,
    {
        &self.messages
    }

    /// How many messages were ever appended, evicted ones included.
    pub fn total_messages(&self) -> (r: usize)
        ensures
            r == self@.message_count,
    {
        self.message_count
    }

    pub fn in_simulation_mode(&self) -> (r: bool)
        ensures
            r == self@.simulation_mode,
    {
        self.simulation_mode
    }

    pub fn race_is_active(&self) -> (r: bool)
        ensures
            r == self@.race_active,
    {
        self.race_active
    }

    /// When the running race started, if one is running.
    pub fn race_start_ms(&self) -> (r: Option<u64>)
        ensures
            r == self@.race_start_time,
    {
        self.race_start_time
    }
}

} // verus!
