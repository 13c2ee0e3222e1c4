pub mod v1;
pub mod v2;
pub mod v3;

use vstd::prelude::*;

verus! {

use vstd::string::*;
use crate::Error;
use crate::events::{OutputEvent, sorted_events};
use crate::theme::{Rgb, Theme, triplet_ok, triplet_rgb};

/// A parsed recording: its header and the canonical output-event stream,
/// with absolute timestamps in microseconds, non-decreasing.
#[derive(Debug)]
pub struct Asciicast {
    pub header: Header,
    pub events: Vec<OutputEvent>,
}

/// The recording metadata: terminal size, an optional embedded theme and an
/// optional idle-time limit in microseconds.
#[derive(Debug)]
pub struct Header {
    pub term_cols: u16,
    pub term_rows: u16,
    pub term_theme: Option<Theme>,
    pub idle_time_limit: Option<u64>,
}

impl Default for Header {
    /// An 80x24 terminal with no embedded theme and no idle-time limit.
    fn default() -> (r: Header)
        ensures
            r.term_cols == 80,
            r.term_rows == 24,
            r.term_theme is None,
            r.idle_time_limit is None,
    {
        Header { term_cols: 80, term_rows: 24, term_theme: None, idle_time_limit: None }
    }
}

impl Header {
    /// The embedded theme, if present, is well formed.
    pub open spec fn wf(&self) -> bool {
        match self.term_theme {
            Some(t) => t.wf(),
            None => true,
        }
    }
}

#[verifier::external_type_specification]
#[verifier::external_body]
pub struct ExJsonValue(serde_json::Value);

/// What serde_json::from_str::<Value> returns: the parsed value when the
/// text is one well-formed JSON document, nothing otherwise.
pub uninterp spec fn json_of(s: Seq<char>) -> Option<serde_json::Value>;

/// What serde_json::Value::get returns: the member of a JSON object under
/// the key, if the value is an object and has it.
pub uninterp spec fn json_member_of(v: serde_json::Value, key: Seq<char>) -> Option<
    serde_json::Value,
>;

/// What serde_json::Value::is_null returns.
pub uninterp spec fn json_null_of(v: serde_json::Value) -> bool;

/// What serde_json::Value::as_u64 returns: the value as an unsigned
/// integer, if it is one.
pub uninterp spec fn json_u64_of(v: serde_json::Value) -> Option<u64>;

/// What serde_json::Value::as_str returns: the value's characters, if it
/// is a JSON string.
pub uninterp spec fn json_str_of(v: serde_json::Value) -> Option<Seq<char>>;

/// What serde_json::Value::as_array returns: the elements, if the value is
/// a JSON array.
pub uninterp spec fn json_array_of(v: serde_json::Value) -> Option<Seq<serde_json::Value>>;

/// What serde_json::Number's Display impl prints for a JSON number.
pub uninterp spec fn json_number_text_of(v: serde_json::Value) -> Option<Seq<char>>;

/// Relies on serde_json::from_str::<Value>.
#[verifier::external_body]
pub(crate) fn json_parse(s: &str) -> (r: Option<serde_json::Value>)
    ensures
        r == json_of(s@),
{
    serde_json::from_str(s).ok()
}

/// Relies on serde_json::Value::get.
#[verifier::external_body]
pub(crate) fn json_get(v: &serde_json::Value, key: &str) -> (r: Option<serde_json::Value>)
    ensures
        r == json_member_of(*v, key@),
{
    v.get(key).cloned()
}

/// Relies on serde_json::Value::is_null.
#[verifier::external_body]
pub(crate) fn json_is_null(v: &serde_json::Value) -> (r: bool)
    ensures
        r == json_null_of(*v),
{
    v.is_null()
}

/// Relies on serde_json::Value::as_u64.
#[verifier::external_body]
pub(crate) fn json_as_u64(v: &serde_json::Value) -> (r: Option<u64>)
    ensures
        r == json_u64_of(*v),
{
    v.as_u64()
}

/// Relies on serde_json::Value::as_str.
#[verifier::external_body]
pub(crate) fn json_as_str(v: &serde_json::Value) -> (r: Option<String>)
    ensures
        match r {
            Some(s) => json_str_of(*v) == Some(s@),
            None => json_str_of(*v) is None,
        },
{
    v.as_str().map(str::to_owned)
}

/// Relies on serde_json::Value::as_array.
#[verifier::external_body]
pub(crate) fn json_as_array(v: &serde_json::Value) -> (r: Option<Vec<serde_json::Value>>)
    ensures
        match r {
            Some(a) => json_array_of(*v) == Some(a@),
            None => json_array_of(*v) is None,
        },
{
    v.as_array().cloned()
}

/// Relies on serde_json::Number's Display impl: the decimal text of the
/// value, if it is a JSON number.
#[verifier::external_body]
pub(crate) fn json_number_text(v: &serde_json::Value) -> (r: Option<String>)
    ensures
        match r {
            Some(t) => json_number_text_of(*v) == Some(t@),
            None => json_number_text_of(*v) is None,
        },
{
    match v {
        serde_json::Value::Number(n) => Some(n.to_string()),
        _ => None,
    }
}

/// The member under `key`, read as an unsigned integer.
pub open spec fn member_u64(v: serde_json::Value, key: Seq<char>) -> Option<u64> {
    match json_member_of(v, key) {
        None => None,
        Some(x) => json_u64_of(x),
    }
}

/// The member under `key`, read as an unsigned integer in u16 range.
pub open spec fn member_u16(v: serde_json::Value, key: Seq<char>) -> Option<u16> {
    match member_u64(v, key) {
        Some(n) => if n <= u16::MAX {
            Some(n as u16)
        } else {
            None
        },
        None => None,
    }
}

/// The member under `key`, read as a string.
pub open spec fn member_str(v: serde_json::Value, key: Seq<char>) -> Option<Seq<char>> {
    match json_member_of(v, key) {
        None => None,
        Some(x) => json_str_of(x),
    }
}

/// The idle-time limit member: absent or null stand for no limit
/// (`Some(None)`); a number is parsed as seconds into microseconds; any
/// other shape is invalid (`None`).
pub open spec fn member_idle(v: serde_json::Value) -> Option<Option<u64>> {
    match json_member_of(v, "idle_time_limit"@) {
        None => Some(None::<u64>),
        Some(x) => if json_null_of(x) {
            Some(None::<u64>)
        } else {
            match json_number_text_of(x) {
                None => None,
                Some(t) => match timestamp_spec(t) {
                    None => None,
                    Some(us) => Some(Some(us as u64)),
                },
            }
        },
    }
}

pub open spec fn is_digit(c: char) -> bool {
    '0' as int <= c as int && c as int <= '9' as int
}

pub open spec fn digit_val(c: char) -> int {
    c as int - '0' as int
}

/// The largest representable timestamp, in microseconds.
pub open spec fn ts_end(v: int) -> Option<int> {
    if v > u64::MAX {
        None
    } else {
        Some(v)
    }
}

/// The value of a decimal digit string.
pub open spec fn digits_val(s: Seq<char>) -> int
    decreases s.len(),
{
    if s.len() == 0 {
        0
    } else {
        digits_val(s.drop_last()) * 10 + digit_val(s.last())
    }
}

/// The integer phase of the timestamp grammar: leading decimal digits,
/// optionally followed by a fraction and an exponent. `ds` collects the
/// mantissa digits seen so far; the result carries the mantissa digits,
/// the number of fraction digits and the signed exponent.
pub open spec fn ts_scan_int(s: Seq<char>, ds: Seq<char>) -> Option<(Seq<char>, int, int)>
    decreases s.len(), 3int,
{
    if s.len() == 0 {
        if ds.len() > 0 {
            Some((ds, 0int, 0int))
        } else {
            None
        }
    } else if is_digit(s[0]) {
        ts_scan_int(s.drop_first(), ds.push(s[0]))
    } else if s[0] == '.' && ds.len() > 0 {
        ts_scan_frac(s.drop_first(), ds, 0)
    } else if (s[0] == 'e' || s[0] == 'E') && ds.len() > 0 {
        ts_scan_exp_sign(s.drop_first(), ds, 0)
    } else {
        None
    }
}

/// The fraction phase: at least one digit, optionally followed by an
/// exponent.
pub open spec fn ts_scan_frac(s: Seq<char>, ds: Seq<char>, fl: int) -> Option<
    (Seq<char>, int, int),
>
    decreases s.len(), 2int,
{
    if s.len() == 0 {
        if fl > 0 {
            Some((ds, fl, 0int))
        } else {
            None
        }
    } else if is_digit(s[0]) {
        ts_scan_frac(s.drop_first(), ds.push(s[0]), fl + 1)
    } else if (s[0] == 'e' || s[0] == 'E') && fl > 0 {
        ts_scan_exp_sign(s.drop_first(), ds, fl)
    } else {
        None
    }
}

/// The exponent's optional sign.
pub open spec fn ts_scan_exp_sign(s: Seq<char>, ds: Seq<char>, fl: int) -> Option<
    (Seq<char>, int, int),
>
    decreases s.len(), 1int,
{
    if s.len() == 0 {
        None
    } else if s[0] == '+' {
        ts_scan_exp(s.drop_first(), ds, fl, false, 0, 0)
    } else if s[0] == '-' {
        ts_scan_exp(s.drop_first(), ds, fl, true, 0, 0)
    } else {
        ts_scan_exp(s, ds, fl, false, 0, 0)
    }
}

/// The exponent's digits: at least one and at most six (larger exponents
/// could not denote a representable time of day anyway).
pub open spec fn ts_scan_exp(
    s: Seq<char>,
    ds: Seq<char>,
    fl: int,
    neg: bool,
    ev: int,
    en: int,
) -> Option<(Seq<char>, int, int)>
    decreases s.len(), 0int,
{
    if s.len() == 0 {
        if en > 0 {
            Some(
                (
                    ds,
                    fl,
                    if neg {
                        -ev
                    } else {
                        ev
                    },
                ),
            )
        } else {
            None
        }
    } else if is_digit(s[0]) {
        if en >= 6 {
            None
        } else {
            ts_scan_exp(s.drop_first(), ds, fl, neg, ev * 10 + digit_val(s[0]), en + 1)
        }
    } else {
        None
    }
}

/// The mantissa digits padded (or truncated) to `n` places: the digit
/// string whose integer value is the timestamp in microseconds.
pub open spec fn padded_digits(ds: Seq<char>, n: int) -> Seq<char> {
    Seq::new(
        (if n >= 0 {
            n
        } else {
            0
        }) as nat,
        |j: int|
            if j < ds.len() {
                ds[j]
            } else {
                '0'
            },
    )
}

/// What a timestamp string denotes, in microseconds: a non-negative
/// decimal number of seconds, `digits`, `digits.digits`, optionally with
/// an exponent `e`/`E`, an optional sign and up to six exponent digits.
/// The value is truncated to microsecond precision; anything else, or a
/// value over the 64-bit range, denotes nothing.
pub open spec fn timestamp_spec(s: Seq<char>) -> Option<int> {
    match ts_scan_int(s, Seq::empty()) {
        None => None,
        Some((ds, fl, exp)) => {
            let n = ds.len() - fl + exp + 6;
            ts_end(
                if n <= 0 {
                    0
                } else {
                    digits_val(padded_digits(ds, n))
                },
            )
        },
    }
}

pub open spec fn all_digits(s: Seq<char>) -> bool {
    forall|k: int| 0 <= k < s.len() ==> is_digit(#[trigger] s[k])
}

proof fn lemma_digits_val_nonneg(s: Seq<char>)
    requires
        all_digits(s),
    ensures
        digits_val(s) >= 0,
    decreases s.len(),
{
    if s.len() > 0 {
        assert(all_digits(s.drop_last()));
        lemma_digits_val_nonneg(s.drop_last());
    }
}

proof fn lemma_digits_val_prefix(s: Seq<char>, j: int)
    requires
        all_digits(s),
        0 <= j <= s.len(),
    ensures
        digits_val(s) >= digits_val(s.take(j)),
    decreases s.len() - j,
{
    if j < s.len() {
        assert(s.take(j + 1).drop_last() =~= s.take(j));
        assert(all_digits(s.take(j)));
        lemma_digits_val_nonneg(s.take(j));
        assert(digits_val(s.take(j + 1)) == digits_val(s.take(j)) * 10 + digit_val(s[j]));
        lemma_digits_val_prefix(s, j + 1);
    } else {
        assert(s.take(j) =~= s);
    }
}

/// Parses a timestamp in seconds into microseconds.
#[verifier::loop_isolation(false)]
#[verifier::rlimit(100)]
pub fn parse_timestamp(s: &str) -> (r: Option<u64>)
    ensures
        match r {
            Some(v) => timestamp_spec(s@) == Some(v as int),
            None => timestamp_spec(s@) is None,
        },
{
    let n = s.unicode_len();
    let mut ds: Vec<char> = Vec::new();
    let mut fl: usize = 0;
    let mut dot = false;
    let mut e_seen = false;
    let mut i: usize = 0;
    assert(s@.subrange(0, n as int) =~= s@);
    while i < n && !dot && !e_seen
        invariant
            i <= n,
            fl == 0,
            all_digits(ds@),
            !dot && !e_seen ==> ts_scan_int(s@.subrange(i as int, n as int), ds@)
                == ts_scan_int(s@, Seq::empty()),
            dot ==> ts_scan_frac(s@.subrange(i as int, n as int), ds@, 0) == ts_scan_int(
                s@,
                Seq::empty(),
            ),
            e_seen ==> ts_scan_exp_sign(s@.subrange(i as int, n as int), ds@, 0) == ts_scan_int(
                s@,
                Seq::empty(),
            ),
        decreases n - i,
    {
        let ghost pre = s@.subrange(i as int, n as int);
        let c = s.get_char(i);
        assert(pre[0] == c);
        assert(pre.drop_first() =~= s@.subrange(i + 1, n as int));
        let u = c as u32;
        if 48 <= u && u <= 57 {
            ds.push(c);
        } else if u == 46 && ds.len() > 0 {
            dot = true;
        } else if (u == 101 || u == 69) && ds.len() > 0 {
            e_seen = true;
        } else {
            return None;
        }
        i = i + 1;
    }
    if dot {
        while i < n && !e_seen
            invariant
                i <= n,
                fl <= i,
                all_digits(ds@),
                !e_seen ==> ts_scan_frac(s@.subrange(i as int, n as int), ds@, fl as int)
                    == ts_scan_int(s@, Seq::empty()),
                e_seen ==> ts_scan_exp_sign(s@.subrange(i as int, n as int), ds@, fl as int)
                    == ts_scan_int(s@, Seq::empty()),
            decreases n - i,
        {
            let ghost pre = s@.subrange(i as int, n as int);
            let c = s.get_char(i);
            assert(pre[0] == c);
            assert(pre.drop_first() =~= s@.subrange(i + 1, n as int));
            let u = c as u32;
            if 48 <= u && u <= 57 {
                ds.push(c);
                fl = fl + 1;
            } else if (u == 101 || u == 69) && fl > 0 {
                e_seen = true;
            } else {
                return None;
            }
            i = i + 1;
        }
        if !e_seen {
            assert(s@.subrange(n as int, n as int) =~= Seq::<char>::empty());
            if fl == 0 {
                return None;
            }
        }
    } else if !e_seen {
        assert(s@.subrange(n as int, n as int) =~= Seq::<char>::empty());
        if ds.len() == 0 {
            return None;
        }
    }
    let mut exp_neg = false;
    let mut ev: u64 = 0;
    let mut en: usize = 0;
    if e_seen {
        if i >= n {
            return None;
        }
        let ghost pre = s@.subrange(i as int, n as int);
        let c0 = s.get_char(i);
        assert(pre[0] == c0);
        assert(pre.drop_first() =~= s@.subrange(i + 1, n as int));
        if c0 == '+' {
            i = i + 1;
        } else if c0 == '-' {
            exp_neg = true;
            i = i + 1;
        }
        while i < n
            invariant
                i <= n,
                en <= 6,
                ev as int <= (if en == 0 {
                    0int
                } else if en == 1 {
                    9int
                } else if en == 2 {
                    99int
                } else if en == 3 {
                    999int
                } else if en == 4 {
                    9_999int
                } else if en == 5 {
                    99_999int
                } else {
                    999_999int
                }),
                all_digits(ds@),
                ts_scan_exp(
                    s@.subrange(i as int, n as int),
                    ds@,
                    fl as int,
                    exp_neg,
                    ev as int,
                    en as int,
                ) == ts_scan_int(s@, Seq::empty()),
            decreases n - i,
        {
            let ghost pre2 = s@.subrange(i as int, n as int);
            let c = s.get_char(i);
            assert(pre2[0] == c);
            assert(pre2.drop_first() =~= s@.subrange(i + 1, n as int));
            let u = c as u32;
            if 48 <= u && u <= 57 {
                if en >= 6 {
                    return None;
                }
                ev = ev * 10 + ((u - 48) as u64);
                en = en + 1;
            } else {
                return None;
            }
            i = i + 1;
        }
        assert(s@.subrange(n as int, n as int) =~= Seq::<char>::empty());
        if en == 0 {
            return None;
        }
    }
    let ghost scanned = ts_scan_int(s@, Seq::empty());
    let ghost exp_val: int = if exp_neg {
        -(ev as int)
    } else {
        ev as int
    };
    proof {
        assert(scanned == Some((ds@, fl as int, exp_val)));
    }
    let place: i128 = (ds.len() as i128) - (fl as i128) + (if exp_neg {
        -(ev as i128)
    } else {
        ev as i128
    }) + 6;
    if place <= 0 {
        return Some(0);
    }
    let ghost padded = padded_digits(ds@, place as int);
    proof {
        assert(padded.len() == place);
        assert(all_digits(padded)) by {
            assert forall|k: int| 0 <= k < padded.len() implies is_digit(#[trigger] padded[k]) by {
                if k < ds@.len() {
                    assert(is_digit(ds@[k]));
                } else {
                    assert(padded[k] == '0');
                }
            }
        }
    }
    let mut acc: u128 = 0;
    let mut j: i128 = 0;
    assert(padded.take(0) =~= Seq::<char>::empty());
    while j < place
        invariant
            0 <= j <= place,
            place == padded.len(),
            acc <= u64::MAX,
            acc as int == digits_val(padded.take(j as int)),
        decreases place - j,
    {
        let d: u64 = if j < ds.len() as i128 {
            let k = j as usize;
            let ghost dk = ds@[k as int];
            let u = ds[k] as u32;
            assert(is_digit(dk));
            (u - 48) as u64
        } else {
            0
        };
        proof {
            assert(padded.take(j + 1).drop_last() =~= padded.take(j as int));
            assert(padded[j as int] == (if j < ds@.len() {
                ds@[j as int]
            } else {
                '0'
            }));
            assert(digit_val(padded[j as int]) == d as int);
        }
        let acc2: u128 = acc * 10 + (d as u128);
        proof {
            assert(acc2 as int == digits_val(padded.take(j + 1)));
        }
        if acc2 > (u64::MAX as u128) {
            proof {
                lemma_digits_val_prefix(padded, j + 1);
                assert(padded.take(padded.len() as int) =~= padded);
                assert(digits_val(padded) > u64::MAX);
            }
            return None;
        }
        acc = acc2;
        j = j + 1;
    }
    proof {
        assert(padded.take(place as int) =~= padded);
    }
    Some(acc as u64)
}

/// The characters of a string, as a vector.
#[verifier::loop_isolation(false)]
pub(crate) fn str_chars(s: &str) -> (r: Vec<char>)
    ensures
        r@ == s@,
{
    let n = s.unicode_len();
    let mut out: Vec<char> = Vec::new();
    let mut i: usize = 0;
    while i < n
        invariant
            i <= n,
            out@ =~= s@.subrange(0, i as int),
        decreases n - i,
    {
        out.push(s.get_char(i));
        assert(out@ =~= s@.subrange(0, i + 1));
        i = i + 1;
    }
    assert(out@ =~= s@);
    out
}

/// A valid embedded color: `#` followed by six hexadecimal digits.
pub open spec fn hex_color_ok(t: Seq<char>) -> bool {
    t.len() == 7 && t[0] == '#' && triplet_ok(t.subrange(1, 7))
}

pub open spec fn hex_color_rgb(t: Seq<char>) -> Rgb {
    triplet_rgb(t.subrange(1, 7))
}

/// Parses a `#rrggbb` color.
pub(crate) fn parse_hex_color(t: &Vec<char>) -> (r: Option<Rgb>)
    ensures
        r == if hex_color_ok(t@) {
            Some(hex_color_rgb(t@))
        } else {
            None::<Rgb>
        },
{
    if t.len() != 7 {
        return None;
    }
    if t[0] != '#' {
        return None;
    }
    let mut digits: Vec<char> = Vec::new();
    let mut i: usize = 1;
    while i < 7
        invariant
            1 <= i <= 7,
            t@.len() == 7,
            digits@ =~= t@.subrange(1, i as int),
        decreases 7 - i,
    {
        digits.push(t[i]);
        assert(digits@ =~= t@.subrange(1, i + 1));
        i = i + 1;
    }
    assert(digits@ =~= t@.subrange(1, 7));
    match crate::theme::parse_hex_triplet(&digits) {
        Ok(c) => Some(c),
        Err(_) => None,
    }
}

/// The colors of a colon-separated palette string, every segment a valid
/// `#rrggbb` color; a malformed segment poisons the whole palette.
pub open spec fn scan_palette(s: Seq<char>, seg: Seq<char>, acc: Option<Seq<Rgb>>) -> Option<
    Seq<Rgb>,
>
    decreases s.len(),
{
    if s.len() == 0 {
        flush_palette(acc, seg)
    } else if s[0] == ':' {
        scan_palette(s.drop_first(), Seq::empty(), flush_palette(acc, seg))
    } else {
        scan_palette(s.drop_first(), seg.push(s[0]), acc)
    }
}

pub open spec fn flush_palette(acc: Option<Seq<Rgb>>, seg: Seq<char>) -> Option<Seq<Rgb>> {
    match acc {
        None => None,
        Some(cs) => if hex_color_ok(seg) {
            Some(cs.push(hex_color_rgb(seg)))
        } else {
            None
        },
    }
}

pub open spec fn palette_colors(s: Seq<char>) -> Option<Seq<Rgb>> {
    scan_palette(s, Seq::empty(), Some(Seq::empty()))
}

proof fn lemma_scan_palette_none(s: Seq<char>, seg: Seq<char>)
    ensures
        scan_palette(s, seg, None) is None,
    decreases s.len(),
{
    if s.len() != 0 {
        if s[0] == ':' {
            lemma_scan_palette_none(s.drop_first(), Seq::empty());
        } else {
            lemma_scan_palette_none(s.drop_first(), seg.push(s[0]));
        }
    }
}

/// Parses a colon-separated palette string; every entry must be a valid
/// color.
#[verifier::loop_isolation(false)]
pub(crate) fn parse_palette(s: &str) -> (r: Option<Vec<Rgb>>)
    ensures
        match r {
            Some(v) => palette_colors(s@) == Some(v@),
            None => palette_colors(s@) is None,
        },
{
    let n = s.unicode_len();
    let mut acc: Vec<Rgb> = Vec::new();
    let mut seg: Vec<char> = Vec::new();
    let mut i: usize = 0;
    assert(s@.subrange(0, n as int) =~= s@);
    while i < n
        invariant
            i <= n,
            scan_palette(s@.subrange(i as int, n as int), seg@, Some(acc@)) == palette_colors(
                s@,
            ),
        decreases n - i,
    {
        let ghost pre = s@.subrange(i as int, n as int);
        let c = s.get_char(i);
        assert(pre[0] == c);
        assert(pre.drop_first() =~= s@.subrange(i + 1, n as int));
        if c == ':' {
            match parse_hex_color(&seg) {
                Some(col) => { acc.push(col); },
                None => {
                    proof {
                        lemma_scan_palette_none(pre.drop_first(), Seq::empty());
                    }
                    return None;
                },
            }
            seg = Vec::new();
        } else {
            seg.push(c);
        }
        i = i + 1;
    }
    assert(s@.subrange(n as int, n as int) =~= Seq::<char>::empty());
    match parse_hex_color(&seg) {
        Some(col) => { acc.push(col); },
        None => {
            return None;
        },
    }
    Some(acc)
}

/// An embedded theme is accepted when the foreground and background are
/// `#rrggbb` colors and the palette string holds exactly 8 or 16
/// colon-separated `#rrggbb` entries, each one valid; 8 are repeated to
/// fill 16 slots. Any other palette length is rejected, never truncated
/// or padded.
pub open spec fn embedded_theme_ok(fg: Seq<char>, bg: Seq<char>, pal: Seq<char>) -> bool {
    &&& hex_color_ok(fg)
    &&& hex_color_ok(bg)
    &&& palette_colors(pal) is Some
    &&& (palette_colors(pal).unwrap().len() == 8 || palette_colors(pal).unwrap().len() == 16)
}

/// The theme an accepted embedded definition denotes.
pub open spec fn embedded_theme_matches(fg: Seq<char>, bg: Seq<char>, pal: Seq<char>, t: Theme) -> bool {
    &&& t.wf()
    &&& t.foreground == hex_color_rgb(fg)
    &&& t.background == hex_color_rgb(bg)
    &&& forall|k: int|
        0 <= k < 16 ==> t.palette@[k] == palette_colors(pal).unwrap()[k % palette_colors(
            pal,
        ).unwrap().len() as int]
}

/// Builds a theme from per-format embedded color definitions.
#[verifier::loop_isolation(false)]
pub(crate) fn parse_embedded_theme(fg: &str, bg: &str, pal: &str) -> (r: Option<Theme>)
    ensures
        match r {
            Some(t) => embedded_theme_ok(fg@, bg@, pal@) && embedded_theme_matches(
                fg@,
                bg@,
                pal@,
                t,
            ),
            None => !embedded_theme_ok(fg@, bg@, pal@),
        },
{
    let fg_chars = str_chars(fg);
    let bg_chars = str_chars(bg);
    let fg_rgb = match parse_hex_color(&fg_chars) {
        Some(c) => c,
        None => { return None; },
    };
    let bg_rgb = match parse_hex_color(&bg_chars) {
        Some(c) => c,
        None => { return None; },
    };
    let colors = match parse_palette(pal) {
        Some(v) => v,
        None => { return None; },
    };
    if colors.len() != 8 && colors.len() != 16 {
        return None;
    }
    let m = colors.len();
    let mut palette: Vec<Rgb> = Vec::new();
    let mut k: usize = 0;
    while k < 16
        invariant
            k <= 16,
            palette@.len() == k,
            m == colors@.len(),
            forall|j: int| 0 <= j < k ==> palette@[j] == colors@[j % m as int],
        decreases 16 - k,
    {
        palette.push(colors[k % m]);
        k = k + 1;
    }
    Some(Theme { background: bg_rgb, foreground: fg_rgb, palette })
}

/// The recording's lines joined back into one text, from index `i` on
/// (line terminators were already stripped).
pub open spec fn joined_text(lines: Seq<String>, i: int) -> Seq<char>
    decreases lines.len() - i,
{
    if i < 0 || i >= lines.len() {
        Seq::empty()
    } else {
        lines[i]@ + joined_text(lines, i + 1)
    }
}

/// Opens a recording given as its lines (without terminators): the first
/// line picks the newest schema whose header validates (v3, then v2, then
/// the whole text as v1); that schema then governs every following line.
/// `UnsupportedFormat` when no schema matches; an event error of the chosen
/// schema aborts the whole parse.
#[verifier::loop_isolation(false)]
#[verifier::rlimit(100)]
pub fn open(lines: &Vec<String>) -> (r: Result<Asciicast, Error>)
    ensures
        match r {
            Ok(a) => {
                &&& sorted_events(a.events@)
                &&& a.header.wf()
                &&& lines@.len() > 0
                &&& (if v3::v3_header_ok(lines@[0]@) {
                    &&& v3::v3_header_denotes(lines@[0]@, a.header)
                    &&& v3::v3_lines_spec(lines@, 1, 0) == Some(crate::events::events_view(
                        a.events@,
                    ))
                } else if v2::v2_header_ok(lines@[0]@) {
                    &&& v2::v2_header_denotes(lines@[0]@, a.header)
                    &&& v2::v2_lines_spec(lines@, 1, 0) == Some(crate::events::events_view(
                        a.events@,
                    ))
                } else {
                    &&& v1::v1_doc_ok(joined_text(lines@, 0))
                    &&& v1::v1_denotes(joined_text(lines@, 0), a)
                })
            },
            Err(e) => {
                if lines@.len() == 0 {
                    e == Error::UnsupportedFormat
                } else if v3::v3_header_ok(lines@[0]@) {
                    e == Error::InvalidEvent && v3::v3_lines_spec(lines@, 1, 0) is None
                } else if v2::v2_header_ok(lines@[0]@) {
                    e == Error::InvalidEvent && v2::v2_lines_spec(lines@, 1, 0) is None
                } else {
                    e == Error::UnsupportedFormat && !v1::v1_doc_ok(joined_text(lines@, 0))
                }
            },
        },
{
    if lines.len() == 0 {
        return Err(Error::UnsupportedFormat);
    }
    let first = &lines[0];
    match v3::open(first.as_str()) {
        Some(parser) => {
            return parser.parse(lines, 1);
        },
        None => {},
    }
    match v2::open(first.as_str()) {
        Some(parser) => {
            return parser.parse(lines, 1);
        },
        None => {},
    }
    let mut joined = String::new();
    let mut i: usize = 0;
    while i < lines.len()
        invariant
            i <= lines@.len(),
            joined@ + joined_text(lines@, i as int) == joined_text(lines@, 0),
        decreases lines@.len() - i,
    {
        let ghost joined0 = joined@;
        joined.append(lines[i].as_str());
        proof {
            assert((joined0 + lines@[i as int]@) + joined_text(lines@, i + 1) =~= joined0 + (
            lines@[i as int]@ + joined_text(lines@, i + 1)));
        }
        i = i + 1;
    }
    proof {
        assert(joined_text(lines@, lines@.len() as int) =~= Seq::<char>::empty());
        assert(joined@ + Seq::<char>::empty() =~= joined@);
    }
    v1::load(joined.as_str())
}

} // verus!
