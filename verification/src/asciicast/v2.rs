use vstd::prelude::*;

verus! {

use vstd::string::*;
use crate::Error;
use crate::asciicast::{
    Asciicast,
    Header,
    embedded_theme_matches,
    embedded_theme_ok,
    json_array_of,
    json_as_array,
    json_as_str,
    json_as_u64,
    json_get,
    json_is_null,
    json_member_of,
    json_null_of,
    json_number_text,
    json_number_text_of,
    json_of,
    json_parse,
    json_str_of,
    member_idle,
    member_str,
    member_u16,
    member_u64,
    parse_embedded_theme,
    parse_timestamp,
    timestamp_spec,
};
use crate::events::{OutputEvent, events_view, lemma_view_push, sorted_events};
use crate::theme::Theme;

/// Whether a JSON value is a valid embedded theme object: `fg`, `bg` and
/// `palette` string members forming an accepted definition.
pub open spec fn theme_value_ok(tv: serde_json::Value) -> bool {
    match (member_str(tv, "fg"@), member_str(tv, "bg"@), member_str(tv, "palette"@)) {
        (Some(fg), Some(bg), Some(pal)) => embedded_theme_ok(fg, bg, pal),
        _ => false,
    }
}

/// The theme a valid embedded theme object denotes.
pub open spec fn theme_value_denotes(tv: serde_json::Value, t: Theme) -> bool {
    match (member_str(tv, "fg"@), member_str(tv, "bg"@), member_str(tv, "palette"@)) {
        (Some(fg), Some(bg), Some(pal)) => embedded_theme_matches(fg, bg, pal, t),
        _ => false,
    }
}

/// Whether a line is a valid v2 header: one JSON object with version 2,
/// u16-range width and height, a well-formed optional idle-time limit and
/// a well-formed optional theme.
pub open spec fn v2_header_ok(s: Seq<char>) -> bool {
    match json_of(s) {
        None => false,
        Some(v) => {
            &&& member_u64(v, "version"@) == Some(2u64)
            &&& member_u16(v, "width"@) is Some
            &&& member_u16(v, "height"@) is Some
            &&& member_idle(v) is Some
            &&& (match json_member_of(v, "theme"@) {
                None => true,
                Some(tv) => json_null_of(tv) || theme_value_ok(tv),
            })
        },
    }
}

/// The parser a valid v2 header line denotes, field for field.
pub open spec fn v2_parser_denotes(s: Seq<char>, p: Parser) -> bool {
    match json_of(s) {
        None => false,
        Some(v) => {
            &&& Some(p.width) == member_u16(v, "width"@)
            &&& Some(p.height) == member_u16(v, "height"@)
            &&& Some(p.idle_time_limit) == member_idle(v)
            &&& (match json_member_of(v, "theme"@) {
                None => p.theme is None,
                Some(tv) => if json_null_of(tv) {
                    p.theme is None
                } else {
                    p.theme matches Some(t) && theme_value_denotes(tv, t)
                },
            })
        },
    }
}

/// The header a valid v2 header line denotes, field for field.
pub open spec fn v2_header_denotes(s: Seq<char>, h: Header) -> bool {
    match json_of(s) {
        None => false,
        Some(v) => {
            &&& Some(h.term_cols) == member_u16(v, "width"@)
            &&& Some(h.term_rows) == member_u16(v, "height"@)
            &&& Some(h.idle_time_limit) == member_idle(v)
            &&& (match json_member_of(v, "theme"@) {
                None => h.term_theme is None,
                Some(tv) => if json_null_of(tv) {
                    h.term_theme is None
                } else {
                    h.term_theme matches Some(t) && theme_value_denotes(tv, t)
                },
            })
        },
    }
}

/// What one v2 event line yields, given the previous accepted timestamp:
/// `None` for a malformed line (not a JSON array of at least three
/// elements, no numeric time, no string code or data, an empty code, or an
/// output time running backwards); `Some(None)` for a well-formed
/// non-output event; `Some(Some((time, data)))` for an output event.
pub open spec fn v2_event_spec(s: Seq<char>, prev: u64) -> Option<Option<(u64, Seq<char>)>> {
    match json_of(s) {
        None => None,
        Some(v) => match json_array_of(v) {
            None => None,
            Some(arr) => if arr.len() < 3 {
                None
            } else {
                match json_number_text_of(arr[0]) {
                    None => None,
                    Some(ttext) => match timestamp_spec(ttext) {
                        None => None,
                        Some(time) => match (json_str_of(arr[1]), json_str_of(arr[2])) {
                            (Some(code), Some(data)) => if code.len() == 0 {
                                None
                            } else if code.len() == 1 && code[0] == 'o' {
                                if time < prev {
                                    None
                                } else {
                                    Some(Some((time as u64, data)))
                                }
                            } else {
                                Some(None)
                            },
                            _ => None,
                        },
                    },
                }
            },
        },
    }
}

/// The output events of the lines from index `i` on: blank lines are
/// skipped, non-output events dropped, output events collected in order,
/// each feeding its time to the next as the new floor; a malformed line
/// poisons the rest.
pub open spec fn v2_lines_spec(lines: Seq<String>, i: int, prev: u64) -> Option<
    Seq<(u64, Seq<char>)>,
>
    decreases lines.len() - i,
{
    if i < 0 || i >= lines.len() {
        Some(Seq::empty())
    } else if lines[i]@.len() == 0 {
        v2_lines_spec(lines, i + 1, prev)
    } else {
        match v2_event_spec(lines[i]@, prev) {
            None => None,
            Some(None) => v2_lines_spec(lines, i + 1, prev),
            Some(Some(ev)) => match v2_lines_spec(lines, i + 1, ev.0) {
                None => None,
                Some(rest) => Some(seq![ev] + rest),
            },
        }
    }
}

/// The validated header of a v2 recording.
pub struct Parser {
    pub width: u16,
    pub height: u16,
    pub idle_time_limit: Option<u64>,
    pub theme: Option<Theme>,
}

impl Parser {
    pub open spec fn wf(&self) -> bool {
        match self.theme {
            Some(t) => t.wf(),
            None => true,
        }
    }

    /// Parses the event lines that follow the header. Blank lines are
    /// skipped; every other line must be a JSON array `[time, code, data]`
    /// with an absolute timestamp in seconds. Events whose code is not "o"
    /// are dropped; a line that does not parse, an empty code, or a
    /// timestamp running backwards aborts with `InvalidEvent`.
    #[verifier::loop_isolation(false)]
    #[verifier::rlimit(100)]
    pub fn parse(self, lines: &Vec<String>, start: usize) -> (r: Result<Asciicast, Error>)
        requires
            self.wf(),
        ensures
            match r {
                Ok(a) => {
                    &&& v2_lines_spec(lines@, start as int, 0) == Some(events_view(a.events@))
                    &&& sorted_events(a.events@)
                    &&& a.header.wf()
                    &&& a.header.term_cols == self.width
                    &&& a.header.term_rows == self.height
                    &&& a.header.term_theme == self.theme
                    &&& a.header.idle_time_limit == self.idle_time_limit
                },
                Err(e) => e == Error::InvalidEvent && v2_lines_spec(lines@, start as int, 0)
                    is None,
            },
    {
        let mut events: Vec<OutputEvent> = Vec::new();
        let mut prev: u64 = 0;
        let mut i: usize = start;
        proof {
            assert(events_view(events@) =~= Seq::<(u64, Seq<char>)>::empty());
        }
        while i < lines.len()
            invariant
                start <= i,
                sorted_events(events@),
                events@.len() > 0 ==> events@.last().0 <= prev,
                forall|rest: Seq<(u64, Seq<char>)>|
                    v2_lines_spec(lines@, i as int, prev) == Some(rest) ==> v2_lines_spec(
                        lines@,
                        start as int,
                        0,
                    ) == Some(events_view(events@) + rest),
                v2_lines_spec(lines@, i as int, prev) is None ==> v2_lines_spec(
                    lines@,
                    start as int,
                    0,
                ) is None,
            decreases lines@.len() - i,
        {
            let line = &lines[i];
            if !line.as_str().is_empty() {
                match parse_event(line.as_str(), prev) {
                    Ok(Some(ev)) => {
                        let ghost ev_view = (ev.0, ev.1@);
                        let ghost events0 = events@;
                        let t = ev.0;
                        events.push(ev);
                        prev = t;
                        proof {
                            lemma_view_push(events0, (ev_view.0, events@.last().1));
                            assert forall|rest: Seq<(u64, Seq<char>)>|
                                v2_lines_spec(lines@, i + 1, prev) == Some(rest) implies v2_lines_spec(
                                lines@,
                                start as int,
                                0,
                            ) == Some(events_view(events@) + rest) by {
                                assert(v2_lines_spec(lines@, i as int, ev_view.0) == Some(
                                    seq![ev_view] + rest,
                                ));
                                assert(events_view(events0) + (seq![ev_view] + rest)
                                    =~= events_view(events@) + rest);
                            }
                        }
                    },
                    Ok(None) => {},
                    Err(e) => {
                        return Err(e);
                    },
                }
            }
            i = i + 1;
        }
        proof {
            assert(v2_lines_spec(lines@, i as int, prev) == Some(Seq::<(u64, Seq<char>)>::empty()));
            assert(events_view(events@) + Seq::<(u64, Seq<char>)>::empty() =~= events_view(
                events@,
            ));
        }
        let header = Header {
            term_cols: self.width,
            term_rows: self.height,
            term_theme: self.theme,
            idle_time_limit: self.idle_time_limit,
        };
        Ok(Asciicast { header, events })
    }
}

fn parse_event(line: &str, prev: u64) -> (r: Result<Option<OutputEvent>, Error>)
    ensures
        match r {
            Ok(Some(ev)) => ev.0 >= prev && v2_event_spec(line@, prev) == Some(
                Some((ev.0, ev.1@)),
            ),
            Ok(None) => v2_event_spec(line@, prev) == Some(None::<(u64, Seq<char>)>),
            Err(e) => e == Error::InvalidEvent && v2_event_spec(line@, prev) is None,
        },
{
    let v = match json_parse(line) {
        Some(v) => v,
        None => { return Err(Error::InvalidEvent); },
    };
    let arr = match json_as_array(&v) {
        Some(a) => a,
        None => { return Err(Error::InvalidEvent); },
    };
    if arr.len() < 3 {
        return Err(Error::InvalidEvent);
    }
    let time_text = match json_number_text(&arr[0]) {
        Some(t) => t,
        None => { return Err(Error::InvalidEvent); },
    };
    let time = match parse_timestamp(time_text.as_str()) {
        Some(t) => t,
        None => { return Err(Error::InvalidEvent); },
    };
    let code = match json_as_str(&arr[1]) {
        Some(c) => c,
        None => { return Err(Error::InvalidEvent); },
    };
    let data = match json_as_str(&arr[2]) {
        Some(d) => d,
        None => { return Err(Error::InvalidEvent); },
    };
    let code_len = code.as_str().unicode_len();
    if code_len == 0 {
        return Err(Error::InvalidEvent);
    }
    if code_len == 1 && code.as_str().get_char(0) == 'o' {
        if time < prev {
            return Err(Error::InvalidEvent);
        }
        Ok(Some((time, data)))
    } else {
        Ok(None)
    }
}

/// Reads the first line of a v2 recording: a JSON object with `version: 2`,
/// a terminal size, and optional `idle_time_limit` and `theme` members.
/// `None` exactly when the line is not a valid v2 header.
pub fn open(header_line: &str) -> (r: Option<Parser>)
    ensures
        match r {
            Some(p) => p.wf() && v2_header_ok(header_line@) && v2_parser_denotes(
                header_line@,
                p,
            ),
            None => !v2_header_ok(header_line@),
        },
{
    let v = match json_parse(header_line) {
        Some(v) => v,
        None => { return None; },
    };
    let version = match json_get(&v, "version") {
        Some(x) => match json_as_u64(&x) {
            Some(n) => n,
            None => { return None; },
        },
        None => { return None; },
    };
    if version != 2 {
        return None;
    }
    let width = match json_get(&v, "width") {
        Some(x) => match json_as_u64(&x) {
            Some(n) => if n <= u16::MAX as u64 {
                n as u16
            } else {
                return None;
            },
            None => { return None; },
        },
        None => { return None; },
    };
    let height = match json_get(&v, "height") {
        Some(x) => match json_as_u64(&x) {
            Some(n) => if n <= u16::MAX as u64 {
                n as u16
            } else {
                return None;
            },
            None => { return None; },
        },
        None => { return None; },
    };
    let idle_time_limit = match json_get(&v, "idle_time_limit") {
        Some(x) => if json_is_null(&x) {
            None
        } else {
            match json_number_text(&x) {
                Some(t) => match parse_timestamp(t.as_str()) {
                    Some(us) => Some(us),
                    None => { return None; },
                },
                None => { return None; },
            }
        },
        None => None,
    };
    let theme = match json_get(&v, "theme") {
        Some(tv) => if json_is_null(&tv) {
            None
        } else {
            match parse_theme_value(&tv) {
                Some(t) => Some(t),
                None => { return None; },
            }
        },
        None => None,
    };
    Some(Parser { width, height, idle_time_limit, theme })
}

/// Reads an embedded theme object: `fg` and `bg` as `#rrggbb` strings and
/// `palette` as 8 or 16 colon-separated `#rrggbb` entries. `None` exactly
/// when the object is not a valid embedded theme.
pub(crate) fn parse_theme_value(tv: &serde_json::Value) -> (r: Option<Theme>)
    ensures
        match r {
            Some(t) => t.wf() && theme_value_ok(*tv) && theme_value_denotes(*tv, t),
            None => !theme_value_ok(*tv),
        },
{
    let fg = match json_get(tv, "fg") {
        Some(x) => match json_as_str(&x) {
            Some(s) => s,
            None => { return None; },
        },
        None => { return None; },
    };
    let bg = match json_get(tv, "bg") {
        Some(x) => match json_as_str(&x) {
            Some(s) => s,
            None => { return None; },
        },
        None => { return None; },
    };
    let palette = match json_get(tv, "palette") {
        Some(x) => match json_as_str(&x) {
            Some(s) => s,
            None => { return None; },
        },
        None => { return None; },
    };
    parse_embedded_theme(fg.as_str(), bg.as_str(), palette.as_str())
}

} // verus!
