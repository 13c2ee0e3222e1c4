use vstd::prelude::*;

verus! {

use crate::Error;
use crate::asciicast::{
    Asciicast,
    Header,
    json_array_of,
    json_as_array,
    json_as_str,
    json_as_u64,
    json_get,
    json_member_of,
    json_number_text,
    json_number_text_of,
    json_of,
    json_parse,
    json_str_of,
    member_u16,
    member_u64,
    parse_timestamp,
    timestamp_spec,
};
use crate::events::{OutputEvent, events_view, lemma_view_push, sorted_events};

/// What one v1 stdout entry yields, given the accumulated clock: its
/// interval and text read either from a two-element array or from `time`
/// and `data` members; `None` for a malformed entry or a clock overflow.
pub open spec fn v1_entry_spec(entry: serde_json::Value, prev: u64) -> Option<(u64, Seq<char>)> {
    let parts: Option<(Seq<char>, Seq<char>)> = match json_array_of(entry) {
        Some(pair) => if pair.len() < 2 {
            None
        } else {
            match (json_number_text_of(pair[0]), json_str_of(pair[1])) {
                (Some(t), Some(d)) => Some((t, d)),
                _ => None,
            }
        },
        None => {
            match (json_member_of(entry, "time"@), json_member_of(entry, "data"@)) {
                (Some(tm), Some(dm)) => match (json_number_text_of(tm), json_str_of(dm)) {
                    (Some(t), Some(d)) => Some((t, d)),
                    _ => None,
                },
                _ => None,
            }
        },
    };
    match parts {
        None => None,
        Some((ttext, data)) => match timestamp_spec(ttext) {
            None => None,
            Some(delta) => if prev + delta > u64::MAX {
                None
            } else {
                Some(((prev + delta) as u64, data))
            },
        },
    }
}

/// The events of the stdout entries from index `i` on, intervals
/// accumulated into absolute times; a malformed entry poisons the rest.
pub open spec fn v1_events_spec(entries: Seq<serde_json::Value>, i: int, prev: u64) -> Option<
    Seq<(u64, Seq<char>)>,
>
    decreases entries.len() - i,
{
    if i < 0 || i >= entries.len() {
        Some(Seq::empty())
    } else {
        match v1_entry_spec(entries[i], prev) {
            None => None,
            Some(ev) => match v1_events_spec(entries, i + 1, ev.0) {
                None => None,
                Some(rest) => Some(seq![ev] + rest),
            },
        }
    }
}

/// Whether a text is a valid v1 recording: one JSON object with version 1,
/// u16-range width and height, and a stdout array of well-formed entries.
pub open spec fn v1_doc_ok(s: Seq<char>) -> bool {
    match json_of(s) {
        None => false,
        Some(v) => {
            &&& member_u64(v, "version"@) == Some(1u64)
            &&& member_u16(v, "width"@) is Some
            &&& member_u16(v, "height"@) is Some
            &&& (match json_member_of(v, "stdout"@) {
                None => false,
                Some(x) => match json_array_of(x) {
                    None => false,
                    Some(entries) => v1_events_spec(entries, 0, 0) is Some,
                },
            })
        },
    }
}

/// The header and events a valid v1 recording denotes.
pub open spec fn v1_denotes(s: Seq<char>, a: Asciicast) -> bool {
    match json_of(s) {
        None => false,
        Some(v) => {
            &&& Some(a.header.term_cols) == member_u16(v, "width"@)
            &&& Some(a.header.term_rows) == member_u16(v, "height"@)
            &&& a.header.term_theme is None
            &&& a.header.idle_time_limit is None
            &&& (match json_member_of(v, "stdout"@) {
                None => false,
                Some(x) => match json_array_of(x) {
                    None => false,
                    Some(entries) => v1_events_spec(entries, 0, 0) == Some(
                        events_view(a.events@),
                    ),
                },
            })
        },
    }
}

/// Loads a whole v1 recording: one JSON object with `version: 1`, the
/// terminal size, and a `stdout` array of output events. Each event holds
/// the interval since the previous one and the emitted text, either as a
/// two-element array or as an object with `time` and `data` members;
/// intervals are accumulated into absolute timestamps. Any malformed part
/// is `UnsupportedFormat`: a recording that fails here is not an asciicast
/// file of any known version.
#[verifier::loop_isolation(false)]
#[verifier::rlimit(100)]
pub fn load(json: &str) -> (r: Result<Asciicast, Error>)
    ensures
        match r {
            Ok(a) => {
                &&& v1_doc_ok(json@)
                &&& v1_denotes(json@, a)
                &&& sorted_events(a.events@)
                &&& a.header.wf()
                &&& a.header.term_theme is None
                &&& a.header.idle_time_limit is None
            },
            Err(e) => e == Error::UnsupportedFormat && !v1_doc_ok(json@),
        },
{
    let v = match json_parse(json) {
        Some(v) => v,
        None => { return Err(Error::UnsupportedFormat); },
    };
    let version = match json_get(&v, "version") {
        Some(x) => match json_as_u64(&x) {
            Some(n) => n,
            None => { return Err(Error::UnsupportedFormat); },
        },
        None => { return Err(Error::UnsupportedFormat); },
    };
    if version != 1 {
        return Err(Error::UnsupportedFormat);
    }
    let width = match json_get(&v, "width") {
        Some(x) => match json_as_u64(&x) {
            Some(n) => if n <= u16::MAX as u64 {
                n as u16
            } else {
                return Err(Error::UnsupportedFormat);
            },
            None => { return Err(Error::UnsupportedFormat); },
        },
        None => { return Err(Error::UnsupportedFormat); },
    };
    let height = match json_get(&v, "height") {
        Some(x) => match json_as_u64(&x) {
            Some(n) => if n <= u16::MAX as u64 {
                n as u16
            } else {
                return Err(Error::UnsupportedFormat);
            },
            None => { return Err(Error::UnsupportedFormat); },
        },
        None => { return Err(Error::UnsupportedFormat); },
    };
    let stdout = match json_get(&v, "stdout") {
        Some(x) => match json_as_array(&x) {
            Some(a) => a,
            None => { return Err(Error::UnsupportedFormat); },
        },
        None => { return Err(Error::UnsupportedFormat); },
    };
    let mut events: Vec<OutputEvent> = Vec::new();
    let mut prev: u64 = 0;
    let mut i: usize = 0;
    proof {
        assert(events_view(events@) =~= Seq::<(u64, Seq<char>)>::empty());
    }
    while i < stdout.len()
        invariant
            i <= stdout@.len(),
            sorted_events(events@),
            events@.len() > 0 ==> events@.last().0 <= prev,
            forall|rest: Seq<(u64, Seq<char>)>|
                v1_events_spec(stdout@, i as int, prev) == Some(rest) ==> v1_events_spec(
                    stdout@,
                    0,
                    0,
                ) == Some(events_view(events@) + rest),
            v1_events_spec(stdout@, i as int, prev) is None ==> v1_events_spec(stdout@, 0, 0)
                is None,
        decreases stdout@.len() - i,
    {
        let entry = &stdout[i];
        let (delta_text, data) = match json_as_array(entry) {
            Some(pair) => {
                if pair.len() < 2 {
                    return Err(Error::UnsupportedFormat);
                }
                let t = match json_number_text(&pair[0]) {
                    Some(t) => t,
                    None => { return Err(Error::UnsupportedFormat); },
                };
                let d = match json_as_str(&pair[1]) {
                    Some(d) => d,
                    None => { return Err(Error::UnsupportedFormat); },
                };
                (t, d)
            },
            None => {
                let t = match json_get(entry, "time") {
                    Some(x) => match json_number_text(&x) {
                        Some(t) => t,
                        None => { return Err(Error::UnsupportedFormat); },
                    },
                    None => { return Err(Error::UnsupportedFormat); },
                };
                let d = match json_get(entry, "data") {
                    Some(x) => match json_as_str(&x) {
                        Some(d) => d,
                        None => { return Err(Error::UnsupportedFormat); },
                    },
                    None => { return Err(Error::UnsupportedFormat); },
                };
                (t, d)
            },
        };
        let delta = match parse_timestamp(delta_text.as_str()) {
            Some(t) => t,
            None => { return Err(Error::UnsupportedFormat); },
        };
        if (prev as u128) + (delta as u128) > (u64::MAX as u128) {
            return Err(Error::UnsupportedFormat);
        }
        let time = prev + delta;
        let ghost ev_view = (time, data@);
        let ghost events0 = events@;
        let ghost old_prev = prev;
        events.push((time, data));
        prev = time;
        proof {
            lemma_view_push(events0, (time, events@.last().1));
            assert(v1_entry_spec(stdout@[i as int], old_prev) == Some(ev_view));
            assert forall|rest: Seq<(u64, Seq<char>)>|
                v1_events_spec(stdout@, i + 1, prev) == Some(rest) implies v1_events_spec(
                stdout@,
                0,
                0,
            ) == Some(events_view(events@) + rest) by {
                assert(v1_events_spec(stdout@, i as int, old_prev) == Some(seq![ev_view] + rest));
                assert(events_view(events0) + (seq![ev_view] + rest) =~= events_view(events@)
                    + rest);
            }
        }
        i = i + 1;
    }
    proof {
        assert(v1_events_spec(stdout@, i as int, prev) == Some(Seq::<(u64, Seq<char>)>::empty()));
        assert(events_view(events@) + Seq::<(u64, Seq<char>)>::empty() =~= events_view(events@));
    }
    let header = Header { term_cols: width, term_rows: height, term_theme: None, idle_time_limit: None };
    Ok(Asciicast { header, events })
}

} // verus!
