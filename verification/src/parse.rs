//! The line protocol of the timing device: one already-framed line of text in,
//! at most one typed event out.  Pure and deterministic.
//!
//! A sentence opens with the control byte SOH (0x01) followed by a marker:
//! `#` with the device's heartbeat signature somewhere in the line is a
//! heartbeat, `@` opens a tab-separated lap record, `$` opens a tab-separated
//! "new sentence" record that is forwarded verbatim.  Any other non-empty
//! line is forwarded verbatim; an empty line is no event at all.

use vstd::prelude::*;

use crate::event::{event_wf, Event, EventV};
use crate::text::{
    is_float_text, parse_u32, spec_is_float_text, spec_parse_u32, spec_split, split_char,
};

verus! {

/// `pat` occurs in `s` starting at position `i`.
pub open spec fn contains_at(s: Seq<char>, pat: Seq<char>, i: int) -> bool {
    0 <= i && i + pat.len() <= s.len() && s.subrange(i, i + pat.len()) == pat
}

/// `pat` occurs somewhere in `s`.
pub open spec fn spec_contains(s: Seq<char>, pat: Seq<char>) -> bool {
    exists|i: int| contains_at(s, pat, i)
}

fn match_at(s: &str, pat: &str, i: usize) -> (r: bool)
    requires
        i + pat@.len() <= s@.len(),
        s@.len() <= usize::MAX,
    ensures
        r == contains_at(s@, pat@, i as int),
{
    let m = pat.unicode_len();
    let mut k: usize = 0;
    while k < m
        invariant
            i + m <= s@.len() <= usize::MAX,
            m == pat@.len(),
            k <= m,
            forall|t: int| 0 <= t < k ==> s@[i + t] == #[trigger] pat@[t],
        decreases m - k,
    {
        let a = s.get_char(i + k);
        let b = pat.get_char(k);
        if a != b {
            proof {
                assert(s@.subrange(i as int, i + m)[k as int] != pat@[k as int]);
            }
            return false;
        }
        k += 1;
    }
    proof {
        assert(s@.subrange(i as int, i + m) =~= pat@);
    }
    true
}

/// Whether `pat` occurs anywhere in `s`.
pub fn contains_str(s: &str, pat: &str) -> (r: bool)
    ensures
        r == spec_contains(s@, pat@),
{
    let n = s.unicode_len();
    let m = pat.unicode_len();
    if m > n {
        proof {
            assert forall|i: int| !contains_at(s@, pat@, i) by {}
        }
        return false;
    }
    if m == 0 {
        proof {
            assert(s@.subrange(0, 0) =~= pat@);
            assert(contains_at(s@, pat@, 0));
        }
        return true;
    }
    let mut i: usize = 0;
    while i <= n - m
        invariant
            1 <= m <= n == s@.len(),
            n <= usize::MAX,
            m == pat@.len(),
            i <= n - m + 1,
            forall|j: int| 0 <= j < i ==> !contains_at(s@, pat@, j),
        decreases n - i,
    {
        if match_at(s, pat, i) {
            return true;
        }
        i += 1;
    }
    proof {
        assert forall|j: int| !contains_at(s@, pat@, j) by {
            if 0 <= j <= n - m {
                assert(!contains_at(s@, pat@, j));
            }
        }
    }
    false
}

/// What a line of device text parses to.
pub open spec fn spec_parse(line: Seq<char>) -> Option<EventV> {
    if line.len() >= 2 && line[0] == '\u{1}' && line[1] == '#' && spec_contains(line, "xC249"@) {
        Some(EventV::Heartbeat)
    } else if line.len() >= 2 && line[0] == '\u{1}' && line[1] == '@' {
        let parts = spec_split(line, '\t');
        if parts.len() >= 6 && spec_parse_u32(parts[3]) is Some && spec_parse_u32(parts[1]) is Some
            && spec_is_float_text(parts[4]) {
            Some(
                EventV::Lap {
                    racer_id: spec_parse_u32(parts[3]).unwrap(),
                    sensor_id: spec_parse_u32(parts[1]).unwrap(),
                    race_time: parts[4],
                },
            )
        } else {
            Some(EventV::Status { message: "Malformed lap line: "@ + line })
        }
    } else if line.len() >= 2 && line[0] == '\u{1}' && line[1] == '$' {
        if spec_split(line, '\t').len() >= 5 {
            Some(EventV::Raw { line })
        } else {
            Some(EventV::Status { message: "Malformed new_msg line: "@ + line })
        }
    } else if line.len() > 0 {
        Some(EventV::Raw { line })
    } else {
        None
    }
}

/// Parses one framed line of device text into at most one event.
pub fn parse_hardware_line(line: &str) -> (r: Option<Event>)
    ensures
        r matches Some(e) ==> Some(e@) == spec_parse(line@) && event_wf(e@),
        r is None ==> spec_parse(line@) is None,
{
    let n = line.unicode_len();
    if n >= 2 && line.get_char(0) == '\u{1}' && line.get_char(1) == '#' && contains_str(
        line,
        "xC249",
    ) {
        return Some(Event::Heartbeat);
    }
    if n >= 2 && line.get_char(0) == '\u{1}' && line.get_char(1) == '@' {
        let parts = split_char(line, '\t');
        proof {
            assert(parts.deep_view() == spec_split(line@, '\t'));
        }
        if parts.len() >= 6 {
            proof {
                assert(parts@[1]@ == spec_split(line@, '\t')[1]);
                assert(parts@[3]@ == spec_split(line@, '\t')[3]);
                assert(parts@[4]@ == spec_split(line@, '\t')[4]);
            }
            let sensor_id = parse_u32(parts[1].as_str());
            let racer_id = parse_u32(parts[3].as_str());
            let time_ok = is_float_text(parts[4].as_str());
            if let (Some(racer_id), Some(sensor_id)) = (racer_id, sensor_id) {
                if time_ok {
                    let race_time = parts[4].clone();
                    return Some(Event::Lap { racer_id, sensor_id, race_time });
                }
            }
        }
        let mut message = String::from_str("Malformed lap line: ");
        message.append(line);
        return Some(Event::Status { message });
    }
    if n >= 2 && line.get_char(0) == '\u{1}' && line.get_char(1) == '$' {
        let parts = split_char(line, '\t');
        if parts.len() >= 5 {
            return Some(Event::Raw { line: line.to_owned() });
        }
        let mut message = String::from_str("Malformed new_msg line: ");
        message.append(line);
        return Some(Event::Status { message });
    }
    if n > 0 {
        return Some(Event::Raw { line: line.to_owned() });
    }
    None
}

/// A non-empty line that opens with no SOH marker is forwarded verbatim.
pub proof fn lemma_plain_line_is_raw(line: Seq<char>)
    requires
        line.len() > 0,
        !(line.len() >= 2 && line[0] == '\u{1}' && (line[1] == '#' || line[1] == '@' || line[1]
            == '$')),
    ensures
        spec_parse(line) == Some(EventV::Raw { line }),
{
}

/// An empty line parses to no event at all.
pub proof fn lemma_empty_line_is_silent(line: Seq<char>)
    requires
        line.len() == 0,
    ensures
        spec_parse(line) is None,
{
}

/// A SOH `#` line carrying the heartbeat signature is a heartbeat, whatever
/// else the line carries.
pub proof fn lemma_heartbeat_line(line: Seq<char>)
    requires
        line.len() >= 2,
        line[0] == '\u{1}',
        line[1] == '#',
        spec_contains(line, "xC249"@),
    ensures
        spec_parse(line) == Some(EventV::Heartbeat),
{
}

/// A SOH `@` line of at least six tab fields whose sensor and racer fields
/// read as unsigned integers and whose time field reads as a floating-point
/// number is the lap those fields spell.
pub proof fn lemma_lap_line(line: Seq<char>)
    requires
        line.len() >= 2,
        line[0] == '\u{1}',
        line[1] == '@',
        spec_split(line, '\t').len() >= 6,
        spec_parse_u32(spec_split(line, '\t')[1]) is Some,
        spec_parse_u32(spec_split(line, '\t')[3]) is Some,
        spec_is_float_text(spec_split(line, '\t')[4]),
    ensures
        spec_parse(line) == Some(
            EventV::Lap {
                racer_id: spec_parse_u32(spec_split(line, '\t')[3]).unwrap(),
                sensor_id: spec_parse_u32(spec_split(line, '\t')[1]).unwrap(),
                race_time: spec_split(line, '\t')[4],
            },
        ),
{
}

/// A SOH `@` line that fails any of those checks is reported as a status
/// event that carries the original line.
pub proof fn lemma_malformed_lap_line(line: Seq<char>)
    requires
        line.len() >= 2,
        line[0] == '\u{1}',
        line[1] == '@',
        !(spec_split(line, '\t').len() >= 6 && spec_parse_u32(spec_split(line, '\t')[1]) is Some
            && spec_parse_u32(spec_split(line, '\t')[3]) is Some && spec_is_float_text(
            spec_split(line, '\t')[4],
        )),
    ensures
        spec_parse(line) == Some(EventV::Status { message: "Malformed lap line: "@ + line }),
{
}

} // verus!
