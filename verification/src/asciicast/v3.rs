use vstd::prelude::*;

verus! {

use vstd::string::*;
use crate::Error;
use crate::asciicast::{
    Asciicast,
    Header,
    json_array_of,
    json_as_array,
    json_as_str,
    json_as_u64,
    json_get,
    json_is_null,
    json_member_of,
    json_null_of,
    json_number_text,
    json_number_text_of,
    json_of,
    json_parse,
    json_str_of,
    member_idle,
    member_u16,
    member_u64,
    parse_timestamp,
    timestamp_spec,
};
use crate::asciicast::v2::{parse_theme_value, theme_value_denotes, theme_value_ok};
use crate::events::{OutputEvent, events_view, lemma_view_push, sorted_events};
use crate::theme::Theme;

/// Whether a line is a valid v3 header: one JSON object with version 3, a
/// `term` object with u16-range cols and rows and a well-formed optional
/// theme, and a well-formed optional idle-time limit.
pub open spec fn v3_header_ok(s: Seq<char>) -> bool {
    match json_of(s) {
        None => false,
        Some(v) => {
            &&& member_u64(v, "version"@) == Some(3u64)
            &&& (match json_member_of(v, "term"@) {
                None => false,
                Some(term) => {
                    &&& member_u16(term, "cols"@) is Some
                    &&& member_u16(term, "rows"@) is Some
                    &&& (match json_member_of(term, "theme"@) {
                        None => true,
                        Some(tv) => json_null_of(tv) || theme_value_ok(tv),
                    })
                },
            })
            &&& member_idle(v) is Some
        },
    }
}

/// The parser a valid v3 header line denotes, field for field.
pub open spec fn v3_parser_denotes(s: Seq<char>, p: Parser) -> bool {
    match json_of(s) {
        None => false,
        Some(v) => {
            &&& Some(p.idle_time_limit) == member_idle(v)
            &&& (match json_member_of(v, "term"@) {
                None => false,
                Some(term) => {
                    &&& Some(p.cols) == member_u16(term, "cols"@)
                    &&& Some(p.rows) == member_u16(term, "rows"@)
                    &&& (match json_member_of(term, "theme"@) {
                        None => p.theme is None,
                        Some(tv) => if json_null_of(tv) {
                            p.theme is None
                        } else {
                            p.theme matches Some(t) && theme_value_denotes(tv, t)
                        },
                    })
                },
            })
        },
    }
}

/// The header a valid v3 header line denotes, field for field.
pub open spec fn v3_header_denotes(s: Seq<char>, h: Header) -> bool {
    match json_of(s) {
        None => false,
        Some(v) => {
            &&& Some(h.idle_time_limit) == member_idle(v)
            &&& (match json_member_of(v, "term"@) {
                None => false,
                Some(term) => {
                    &&& Some(h.term_cols) == member_u16(term, "cols"@)
                    &&& Some(h.term_rows) == member_u16(term, "rows"@)
                    &&& (match json_member_of(term, "theme"@) {
                        None => h.term_theme is None,
                        Some(tv) => if json_null_of(tv) {
                            h.term_theme is None
                        } else {
                            h.term_theme matches Some(t) && theme_value_denotes(tv, t)
                        },
                    })
                },
            })
        },
    }
}

/// What one v3 event line yields, given the accumulated clock: `None` for
/// a malformed line (not a JSON array of at least three elements, no
/// numeric interval, no string code or data, an empty code, or a clock
/// overflow); otherwise the advanced clock and, for an output event, the
/// event itself.
pub open spec fn v3_event_spec(s: Seq<char>, prev: u64) -> Option<(u64, Option<(u64, Seq<char>)>)> {
    match json_of(s) {
        None => None,
        Some(v) => match json_array_of(v) {
            None => None,
            Some(arr) => if arr.len() < 3 {
                None
            } else {
                match json_number_text_of(arr[0]) {
                    None => None,
                    Some(ttext) => match timestamp_spec(ttext) {
                        None => None,
                        Some(delta) => match (json_str_of(arr[1]), json_str_of(arr[2])) {
                            (Some(code), Some(data)) => if prev + delta > u64::MAX {
                                None
                            } else {
                                let time = (prev + delta) as u64;
                                if code.len() == 0 {
                                    None
                                } else if code.len() == 1 && code[0] == 'o' {
                                    Some((time, Some((time, data))))
                                } else {
                                    Some((time, None))
                                }
                            },
                            _ => None,
                        },
                    },
                }
            },
        },
    }
}

/// The output events of the lines from index `i` on: blank lines and
/// comment lines starting with `#` are skipped, every other line advances
/// the clock by its interval, output events are collected in order; a
/// malformed line poisons the rest.
pub open spec fn v3_lines_spec(lines: Seq<String>, i: int, prev: u64) -> Option<
    Seq<(u64, Seq<char>)>,
>
    decreases lines.len() - i,
{
    if i < 0 || i >= lines.len() {
        Some(Seq::empty())
    } else if lines[i]@.len() == 0 || lines[i]@[0] == '#' {
        v3_lines_spec(lines, i + 1, prev)
    } else {
        match v3_event_spec(lines[i]@, prev) {
            None => None,
            Some((np, opt)) => match (opt, v3_lines_spec(lines, i + 1, np)) {
                (_, None) => None,
                (None, Some(rest)) => Some(rest),
                (Some(ev), Some(rest)) => Some(seq![ev] + rest),
            },
        }
    }
}

/// The validated header of a v3 recording.
pub struct Parser {
    pub cols: u16,
    pub rows: u16,
    pub idle_time_limit: Option<u64>,
    pub theme: Option<Theme>,
}

impl Parser {
    pub open spec fn wf(&self) -> bool {
        match self.theme {
            Some(t) => t.wf(),
            None => true,
        }
    }

    /// Parses the event lines that follow the header. Blank lines and
    /// comment lines starting with `#` are skipped. Every other line must
    /// be a JSON array `[interval, code, data]` whose interval is the time
    /// since the previous event (of any code); intervals are accumulated
    /// into absolute timestamps. Events whose code is not "o" are dropped;
    /// a line that does not parse or an empty code aborts with
    /// `InvalidEvent`.
    #[verifier::loop_isolation(false)]
    #[verifier::rlimit(100)]
    pub fn parse(self, lines: &Vec<String>, start: usize) -> (r: Result<Asciicast, Error>)
        requires
            self.wf(),
        ensures
            match r {
                Ok(a) => {
                    &&& v3_lines_spec(lines@, start as int, 0) == Some(events_view(a.events@))
                    &&& sorted_events(a.events@)
                    &&& a.header.wf()
                    &&& a.header.term_cols == self.cols
                    &&& a.header.term_rows == self.rows
                    &&& a.header.term_theme == self.theme
                    &&& a.header.idle_time_limit == self.idle_time_limit
                },
                Err(e) => e == Error::InvalidEvent && v3_lines_spec(lines@, start as int, 0)
                    is None,
            },
    {
        let mut events: Vec<OutputEvent> = Vec::new();
        let mut prev: u64 = 0;
        let mut i: usize = start;
        proof {
            assert(events_view(events@) =~= Seq::<(u64, Seq<char>)>::empty());
        }
        while i < lines.len()
            invariant
                start <= i,
                sorted_events(events@),
                events@.len() > 0 ==> events@.last().0 <= prev,
                forall|rest: Seq<(u64, Seq<char>)>|
                    v3_lines_spec(lines@, i as int, prev) == Some(rest) ==> v3_lines_spec(
                        lines@,
                        start as int,
                        0,
                    ) == Some(events_view(events@) + rest),
                v3_lines_spec(lines@, i as int, prev) is None ==> v3_lines_spec(
                    lines@,
                    start as int,
                    0,
                ) is None,
            decreases lines@.len() - i,
        {
            let line = &lines[i];
            let len = line.as_str().unicode_len();
            if len > 0 && line.as_str().get_char(0) != '#' {
                match parse_event(line.as_str(), prev) {
                    Ok((new_prev, ev)) => {
                        match ev {
                            Some(e) => {
                                let ghost ev_view = (e.0, e.1@);
                                let ghost events0 = events@;
                                let ghost old_prev = prev;
                                events.push(e);
                                prev = new_prev;
                                proof {
                                    lemma_view_push(events0, (ev_view.0, events@.last().1));
                                    assert forall|rest: Seq<(u64, Seq<char>)>|
                                        v3_lines_spec(lines@, i + 1, prev) == Some(
                                            rest,
                                        ) implies v3_lines_spec(lines@, start as int, 0) == Some(
                                        events_view(events@) + rest,
                                    ) by {
                                        assert(v3_lines_spec(lines@, i as int, old_prev) == Some(
                                            seq![ev_view] + rest,
                                        ));
                                        assert(events_view(events0) + (seq![ev_view] + rest)
                                            =~= events_view(events@) + rest);
                                    }
                                }
                            },
                            None => {
                                prev = new_prev;
                            },
                        }
                    },
                    Err(e) => {
                        return Err(e);
                    },
                }
            }
            i = i + 1;
        }
        proof {
            assert(v3_lines_spec(lines@, i as int, prev) == Some(
                Seq::<(u64, Seq<char>)>::empty(),
            ));
            assert(events_view(events@) + Seq::<(u64, Seq<char>)>::empty() =~= events_view(
                events@,
            ));
        }
        let header = Header {
            term_cols: self.cols,
            term_rows: self.rows,
            term_theme: self.theme,
            idle_time_limit: self.idle_time_limit,
        };
        Ok(Asciicast { header, events })
    }
}

fn parse_event(line: &str, prev: u64) -> (r: Result<(u64, Option<OutputEvent>), Error>)
    ensures
        match r {
            Ok(p) => p.0 >= prev && v3_event_spec(line@, prev) == Some(
                (
                    p.0,
                    match p.1 {
                        Some(ev) => Some((ev.0, ev.1@)),
                        None => None::<(u64, Seq<char>)>,
                    },
                ),
            ) && (match p.1 {
                Some(ev) => ev.0 == p.0,
                None => true,
            }),
            Err(e) => e == Error::InvalidEvent && v3_event_spec(line@, prev) is None,
        },
{
    let v = match json_parse(line) {
        Some(v) => v,
        None => { return Err(Error::InvalidEvent); },
    };
    let arr = match json_as_array(&v) {
        Some(a) => a,
        None => { return Err(Error::InvalidEvent); },
    };
    if arr.len() < 3 {
        return Err(Error::InvalidEvent);
    }
    let delta_text = match json_number_text(&arr[0]) {
        Some(t) => t,
        None => { return Err(Error::InvalidEvent); },
    };
    let delta = match parse_timestamp(delta_text.as_str()) {
        Some(t) => t,
        None => { return Err(Error::InvalidEvent); },
    };
    let code = match json_as_str(&arr[1]) {
        Some(c) => c,
        None => { return Err(Error::InvalidEvent); },
    };
    let data = match json_as_str(&arr[2]) {
        Some(d) => d,
        None => { return Err(Error::InvalidEvent); },
    };
    if (prev as u128) + (delta as u128) > (u64::MAX as u128) {
        return Err(Error::InvalidEvent);
    }
    let time = prev + delta;
    let code_len = code.as_str().unicode_len();
    if code_len == 0 {
        return Err(Error::InvalidEvent);
    }
    if code_len == 1 && code.as_str().get_char(0) == 'o' {
        Ok((time, Some((time, data))))
    } else {
        Ok((time, None))
    }
}

/// Reads the first line of a v3 recording: a JSON object with `version: 3`
/// and a `term` object carrying the size and an optional theme, plus an
/// optional `idle_time_limit`. `None` exactly when the line is not a valid
/// v3 header.
pub fn open(header_line: &str) -> (r: Option<Parser>)
    ensures
        match r {
            Some(p) => p.wf() && v3_header_ok(header_line@) && v3_parser_denotes(
                header_line@,
                p,
            ),
            None => !v3_header_ok(header_line@),
        },
{
    let v = match json_parse(header_line) {
        Some(v) => v,
        None => { return None; },
    };
    let version = match json_get(&v, "version") {
        Some(x) => match json_as_u64(&x) {
            Some(n) => n,
            None => { return None; },
        },
        None => { return None; },
    };
    if version != 3 {
        return None;
    }
    let term = match json_get(&v, "term") {
        Some(t) => t,
        None => { return None; },
    };
    let cols = match json_get(&term, "cols") {
        Some(x) => match json_as_u64(&x) {
            Some(n) => if n <= u16::MAX as u64 {
                n as u16
            } else {
                return None;
            },
            None => { return None; },
        },
        None => { return None; },
    };
    let rows = match json_get(&term, "rows") {
        Some(x) => match json_as_u64(&x) {
            Some(n) => if n <= u16::MAX as u64 {
                n as u16
            } else {
                return None;
            },
            None => { return None; },
        },
        None => { return None; },
    };
    let idle_time_limit = match json_get(&v, "idle_time_limit") {
        Some(x) => if json_is_null(&x) {
            None
        } else {
            match json_number_text(&x) {
                Some(t) => match parse_timestamp(t.as_str()) {
                    Some(us) => Some(us),
                    None => { return None; },
                },
                None => { return None; },
            }
        },
        None => None,
    };
    let theme = match json_get(&term, "theme") {
        Some(tv) => if json_is_null(&tv) {
            None
        } else {
            match parse_theme_value(&tv) {
                Some(t) => Some(t),
                None => { return None; },
            }
        },
        None => None,
    };
    Some(Parser { cols, rows, idle_time_limit, theme })
}

} // verus!
