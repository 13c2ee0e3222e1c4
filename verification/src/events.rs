use vstd::prelude::*;

verus! {

use vstd::string::*;
use vstd::arithmetic::div_mod::lemma_div_is_ordered;

/// One canonical output event: a timestamp in microseconds since the start
/// of the recording, and the raw terminal output emitted at that time.
pub type OutputEvent = (u64, String);

/// The mathematical image of an event sequence: timestamps with the
/// character sequences of their texts.
pub open spec fn events_view(s: Seq<(u64, String)>) -> Seq<(u64, Seq<char>)> {
    Seq::new(s.len(), |i: int| (s[i].0, s[i].1@))
}

/// Timestamps never decrease (adjacent formulation).
pub open spec fn sorted_view(s: Seq<(u64, Seq<char>)>) -> bool {
    forall|i: int| 1 <= i < s.len() ==> (#[trigger] s[i]).0 >= s[i - 1].0
}

/// Timestamps of an event vector never decrease.
pub open spec fn sorted_events(s: Seq<(u64, String)>) -> bool {
    forall|i: int| 1 <= i < s.len() ==> (#[trigger] s[i]).0 >= s[i - 1].0
}

pub proof fn lemma_sorted_events_iff_view(s: Seq<(u64, String)>)
    ensures
        sorted_events(s) <==> sorted_view(events_view(s)),
{
    if sorted_events(s) {
        assert forall|i: int| 1 <= i < events_view(s).len() implies (#[trigger] events_view(
            s,
        )[i]).0 >= events_view(s)[i - 1].0 by {
            assert(s[i].0 >= s[i - 1].0);
        }
    }
    if sorted_view(events_view(s)) {
        assert forall|i: int| 1 <= i < s.len() implies (#[trigger] s[i]).0 >= s[i - 1].0 by {
            assert(events_view(s)[i].0 >= events_view(s)[i - 1].0);
        }
    }
}

/// The timestamp just before event `i`: the previous event's, or 0 at the
/// start of the stream.
pub open spec fn prev_time(s: Seq<(u64, Seq<char>)>, i: int) -> int {
    if i == 0 {
        0
    } else {
        s[i - 1].0 as int
    }
}

/// How much of the gap before event `i` exceeds `limit`.
pub open spec fn excess_at(s: Seq<(u64, Seq<char>)>, limit: u64, i: int) -> int {
    let gap = s[i].0 - prev_time(s, i);
    if gap > limit {
        gap - limit
    } else {
        0
    }
}

/// The running offset after the first `i` events: the sum of all gap
/// excesses among them.
pub open spec fn offset_at(s: Seq<(u64, Seq<char>)>, limit: u64, i: int) -> int
    decreases i,
{
    if i <= 0 {
        0
    } else {
        offset_at(s, limit, i - 1) + excess_at(s, limit, i - 1)
    }
}

/// The timestamp event `i` is emitted with by the idle-time limiter.
pub open spec fn limited_time(s: Seq<(u64, Seq<char>)>, limit: u64, i: int) -> int {
    s[i].0 - offset_at(s, limit, i + 1)
}

/// The idle-time limiter as a whole: timestamps pulled back by the running
/// excess, texts untouched.
pub open spec fn limited_seq(s: Seq<(u64, Seq<char>)>, limit: u64) -> Seq<(u64, Seq<char>)> {
    Seq::new(s.len(), |i: int| (limited_time(s, limit, i) as u64, s[i].1))
}

proof fn lemma_offset_le_prev(s: Seq<(u64, Seq<char>)>, limit: u64, i: int)
    requires
        sorted_view(s),
        0 <= i <= s.len(),
    ensures
        offset_at(s, limit, i) <= prev_time(s, i),
        offset_at(s, limit, i) >= 0,
    decreases i,
{
    if i > 0 {
        lemma_offset_le_prev(s, limit, i - 1);
    }
}

/// Law: the idle-time limiter caps every inter-event delay at `limit` and
/// keeps smaller delays exactly. The delay between two consecutively
/// emitted timestamps equals the smaller of the original delay and `limit`.
pub proof fn lemma_idle_limit_gap(s: Seq<(u64, Seq<char>)>, limit: u64, i: int)
    requires
        sorted_view(s),
        1 <= i < s.len(),
    ensures
        limited_time(s, limit, i) - limited_time(s, limit, i - 1) == if s[i].0 - s[i - 1].0
            > limit {
            limit as int
        } else {
            s[i].0 - s[i - 1].0
        },
{
    assert(offset_at(s, limit, i + 1) == offset_at(s, limit, i) + excess_at(s, limit, i));
}

/// Law: the limiter only ever moves timestamps backwards, by exactly the
/// accumulated excess of the gaps so far, and never below zero.
pub proof fn lemma_idle_limit_removed(s: Seq<(u64, Seq<char>)>, limit: u64, i: int)
    requires
        sorted_view(s),
        0 <= i < s.len(),
    ensures
        s[i].0 - limited_time(s, limit, i) == offset_at(s, limit, i + 1),
        0 <= limited_time(s, limit, i) <= s[i].0,
{
    lemma_offset_le_prev(s, limit, i + 1);
}

/// Law: the limiter preserves the order of timestamps.
pub proof fn lemma_idle_limit_sorted(s: Seq<(u64, Seq<char>)>, limit: u64)
    requires
        sorted_view(s),
    ensures
        sorted_view(limited_seq(s, limit)),
{
    assert forall|i: int| 1 <= i < limited_seq(s, limit).len() implies (#[trigger] limited_seq(
        s,
        limit,
    )[i]).0 >= limited_seq(s, limit)[i - 1].0 by {
        lemma_idle_limit_gap(s, limit, i);
        lemma_idle_limit_removed(s, limit, i);
        lemma_idle_limit_removed(s, limit, i - 1);
    }
}

/// Clamps every gap between consecutive events that exceeds `limit` down to
/// `limit`, by accumulating the excess into a running offset subtracted from
/// all subsequent timestamps. Gaps at or below `limit` are kept exactly.
#[verifier::loop_isolation(false)]
pub fn limit_idle_time(events: &Vec<OutputEvent>, limit: u64) -> (r: Vec<OutputEvent>)
    requires
        sorted_events(events@),
    ensures
        events_view(r@) == limited_seq(events_view(events@), limit),
{
    let ghost sv = events_view(events@);
    proof {
        lemma_sorted_events_iff_view(events@);
    }
    let mut out: Vec<OutputEvent> = Vec::new();
    let mut prev: u64 = 0;
    let mut offset: u64 = 0;
    let mut i: usize = 0;
    while i < events.len()
        invariant
            i <= events@.len(),
            out@.len() == i,
            prev as int == prev_time(sv, i as int),
            offset as int == offset_at(sv, limit, i as int),
            offset <= prev,
            forall|j: int| 0 <= j < i ==> (#[trigger] out@[j]).1@ == sv[j].1,
            forall|j: int| 0 <= j < i ==> (#[trigger] out@[j]).0 == limited_time(sv, limit, j),
        decreases events@.len() - i,
    {
        let time = events[i].0;
        let data = events[i].1.clone();
        assert(prev <= time);
        let delay = time - prev;
        if delay > limit {
            offset = offset + (delay - limit);
        }
        prev = time;
        out.push((time - offset, data));
        i = i + 1;
    }
    assert(events_view(out@) =~= limited_seq(sv, limit));
    out
}

/// The timestamp `t` scaled down by `speed` (in millionths: 2 000 000 plays
/// twice as fast). The quotient is truncated toward zero.
pub open spec fn scaled_time(t: u64, speed: u64) -> int {
    (t as int * 1_000_000) / speed as int
}

/// The speed-scaling transform as a whole: timestamps divided, texts
/// untouched.
pub open spec fn accelerated_seq(s: Seq<(u64, Seq<char>)>, speed: u64) -> Seq<(u64, Seq<char>)> {
    Seq::new(s.len(), |i: int| (scaled_time(s[i].0, speed) as u64, s[i].1))
}

proof fn lemma_scaled_monotone(a: u64, b: u64, speed: u64)
    requires
        a <= b,
        speed >= 1,
    ensures
        scaled_time(a, speed) <= scaled_time(b, speed),
{
    lemma_div_is_ordered(a as int * 1_000_000, b as int * 1_000_000, speed as int);
}

/// Law: speed scaling preserves the order of timestamps.
pub proof fn lemma_accelerate_sorted(s: Seq<(u64, Seq<char>)>, speed: u64)
    requires
        sorted_view(s),
        speed >= 1,
        forall|i: int| 0 <= i < s.len() ==> scaled_time((#[trigger] s[i]).0, speed) <= u64::MAX,
    ensures
        sorted_view(accelerated_seq(s, speed)),
{
    assert forall|i: int| 1 <= i < accelerated_seq(s, speed).len() implies (
    #[trigger] accelerated_seq(s, speed)[i]).0 >= accelerated_seq(s, speed)[i - 1].0 by {
        lemma_scaled_monotone(s[i - 1].0, s[i].0, speed);
    }
}

/// Divides every timestamp by the playback speed, given in millionths.
/// Texts and order are untouched; this is the whole of the transform.
#[verifier::loop_isolation(false)]
pub fn accelerate(events: &Vec<OutputEvent>, speed: u64) -> (r: Vec<OutputEvent>)
    requires
        speed >= 1,
        forall|i: int| 0 <= i < events@.len() ==> scaled_time((#[trigger] events@[i]).0, speed)
            <= u64::MAX,
    ensures
        events_view(r@) == accelerated_seq(events_view(events@), speed),
{
    let ghost sv = events_view(events@);
    let mut out: Vec<OutputEvent> = Vec::new();
    let mut i: usize = 0;
    while i < events.len()
        invariant
            i <= events@.len(),
            out@.len() == i,
            forall|j: int| 0 <= j < i ==> (#[trigger] out@[j]).1@ == sv[j].1,
            forall|j: int| 0 <= j < i ==> (#[trigger] out@[j]).0 == scaled_time(sv[j].0, speed),
        decreases events@.len() - i,
    {
        let time = events[i].0;
        let data = events[i].1.clone();
        let scaled = ((time as u128) * 1_000_000u128) / (speed as u128);
        assert(scaled == scaled_time(time, speed));
        out.push((scaled as u64, data));
        i = i + 1;
    }
    assert(events_view(out@) =~= accelerated_seq(sv, speed));
    out
}

/// The batching state machine. `pt`/`pd` are the pending batch's start time
/// and accumulated text; `d` is the minimum delay between emitted events.
/// An event closer than `d` to the batch start joins the batch; otherwise
/// the pending batch is flushed if it has text, or if it is the initial
/// batch at time 0 (the anchor that seeds the first frame), and the event
/// starts a new batch. At the end of the stream a pending batch is flushed
/// only if it has text.
pub open spec fn batch_steps(s: Seq<(u64, Seq<char>)>, d: int, pt: u64, pd: Seq<char>) -> Seq<
    (u64, Seq<char>),
>
    decreases s.len(),
{
    if s.len() == 0 {
        if pd.len() > 0 {
            seq![(pt, pd)]
        } else {
            Seq::empty()
        }
    } else if s[0].0 - pt < d {
        batch_steps(s.drop_first(), d, pt, pd + s[0].1)
    } else if pd.len() > 0 || pt == 0 {
        seq![(pt, pd)] + batch_steps(s.drop_first(), d, s[0].0, s[0].1)
    } else {
        batch_steps(s.drop_first(), d, s[0].0, s[0].1)
    }
}

/// What `batch` computes for a whole stream under fps cap `cap`.
pub open spec fn batch_spec(s: Seq<(u64, Seq<char>)>, cap: u8) -> Seq<(u64, Seq<char>)> {
    batch_steps(s, 1_000_000int / cap as int, 0, Seq::empty())
}

pub(crate) proof fn lemma_view_push(s: Seq<(u64, String)>, ev: (u64, String))
    ensures
        events_view(s.push(ev)) == events_view(s) + seq![(ev.0, ev.1@)],
{
    assert(events_view(s.push(ev)) =~= events_view(s) + seq![(ev.0, ev.1@)]);
}

/// Coalesces bursts of events closer together than `1/cap` seconds into
/// single events carrying the concatenated text and the timestamp of the
/// first event of the burst.
#[verifier::loop_isolation(false)]
#[verifier::rlimit(100)]
pub fn batch(events: &Vec<OutputEvent>, fps_cap: u8) -> (r: Vec<OutputEvent>)
    requires
        fps_cap >= 1,
        sorted_events(events@),
    ensures
        events_view(r@) == batch_spec(events_view(events@), fps_cap),
{
    let ghost sv = events_view(events@);
    proof {
        lemma_sorted_events_iff_view(events@);
    }
    let d: u64 = 1_000_000 / (fps_cap as u64);
    let mut out: Vec<OutputEvent> = Vec::new();
    let mut prev_time: u64 = 0;
    let mut prev_data: String = String::new();
    let mut i: usize = 0;
    proof {
        assert(sv.subrange(0, sv.len() as int) =~= sv);
        assert(events_view(out@) + batch_steps(sv, d as int, 0, Seq::empty()) =~= batch_spec(
            sv,
            fps_cap,
        ));
    }
    while i < events.len()
        invariant
            i <= events@.len(),
            d as int == 1_000_000int / fps_cap as int,
            i < events@.len() ==> prev_time <= events@[i as int].0,
            events_view(out@) + batch_steps(
                sv.subrange(i as int, sv.len() as int),
                d as int,
                prev_time,
                prev_data@,
            ) == batch_spec(sv, fps_cap),
        decreases events@.len() - i,
    {
        let ghost rest = sv.subrange(i as int, sv.len() as int);
        proof {
            assert(rest.drop_first() =~= sv.subrange(i + 1, sv.len() as int));
        }
        let time = events[i].0;
        let data = events[i].1.clone();
        if time - prev_time < d {
            prev_data.append(data.as_str());
        } else if prev_data.as_str().is_empty() == false || prev_time == 0 {
            let ghost out0 = out@;
            let ghost flushed_view = prev_data@;
            let flushed = prev_data;
            out.push((prev_time, flushed));
            prev_time = time;
            prev_data = data;
            proof {
                lemma_view_push(out0, (out@.last().0, out@.last().1));
                assert(out0.push((out@.last().0, out@.last().1)) == out@);
                assert((events_view(out0) + seq![(out@.last().0, flushed_view)]) + batch_steps(
                    rest.drop_first(),
                    d as int,
                    prev_time,
                    prev_data@,
                ) =~= events_view(out0) + (seq![(out@.last().0, flushed_view)] + batch_steps(
                    rest.drop_first(),
                    d as int,
                    prev_time,
                    prev_data@,
                )));
            }
        } else {
            prev_time = time;
            prev_data = data;
        }
        i = i + 1;
    }
    proof {
        assert(sv.subrange(sv.len() as int, sv.len() as int) =~= Seq::<(u64, Seq<char>)>::empty());
    }
    if prev_data.as_str().is_empty() == false {
        let ghost out0 = out@;
        out.push((prev_time, prev_data));
        proof {
            lemma_view_push(out0, (out@.last().0, out@.last().1));
            assert(out0.push((out@.last().0, out@.last().1)) == out@);
        }
    }
    proof {
        assert(events_view(out@) =~= events_view(out@) + Seq::<(u64, Seq<char>)>::empty());
    }
    out
}

/// All the text of a stream, in order.
pub open spec fn concat_texts(s: Seq<(u64, Seq<char>)>) -> Seq<char>
    decreases s.len(),
{
    if s.len() == 0 {
        Seq::empty()
    } else {
        s[0].1 + concat_texts(s.drop_first())
    }
}

proof fn lemma_batch_steps_text(s: Seq<(u64, Seq<char>)>, d: int, pt: u64, pd: Seq<char>)
    ensures
        concat_texts(batch_steps(s, d, pt, pd)) =~= pd + concat_texts(s),
    decreases s.len(),
{
    if s.len() == 0 {
        if pd.len() > 0 {
            let o = seq![(pt, pd)];
            assert(o.len() == 1 && o[0].1 == pd);
            assert(o.drop_first() =~= Seq::<(u64, Seq<char>)>::empty());
            assert(concat_texts(o) == pd + concat_texts(o.drop_first()));
            assert(pd + Seq::<char>::empty() =~= pd + concat_texts(s));
        } else {
            assert(pd =~= Seq::<char>::empty());
            assert(concat_texts(Seq::empty()) =~= pd + concat_texts(s));
        }
    } else if s[0].0 - pt < d {
        lemma_batch_steps_text(s.drop_first(), d, pt, pd + s[0].1);
        assert((pd + s[0].1) + concat_texts(s.drop_first()) =~= pd + concat_texts(s));
    } else if pd.len() > 0 || pt == 0 {
        lemma_batch_steps_text(s.drop_first(), d, s[0].0, s[0].1);
        let tail = batch_steps(s.drop_first(), d, s[0].0, s[0].1);
        let o = seq![(pt, pd)] + tail;
        assert(o.drop_first() =~= tail);
        assert(o[0].1 == pd);
        assert(concat_texts(o) == pd + concat_texts(tail));
        assert(pd + (s[0].1 + concat_texts(s.drop_first())) =~= pd + concat_texts(s));
    } else {
        lemma_batch_steps_text(s.drop_first(), d, s[0].0, s[0].1);
        assert(pd =~= Seq::<char>::empty());
        assert(s[0].1 + concat_texts(s.drop_first()) =~= pd + concat_texts(s));
    }
}

/// Law: batching never drops or reorders output text. The concatenation of
/// all emitted texts equals the concatenation of all input texts.
pub proof fn lemma_batch_preserves_text(s: Seq<(u64, Seq<char>)>, cap: u8)
    ensures
        concat_texts(batch_spec(s, cap)) == concat_texts(s),
{
    lemma_batch_steps_text(s, 1_000_000int / cap as int, 0, Seq::empty());
    assert(Seq::<char>::empty() + concat_texts(s) =~= concat_texts(s));
}

proof fn lemma_batch_steps_sorted(s: Seq<(u64, Seq<char>)>, d: int, pt: u64, pd: Seq<char>)
    requires
        sorted_view(s),
        s.len() > 0 ==> pt <= s[0].0,
    ensures
        forall|i: int| 1 <= i < batch_steps(s, d, pt, pd).len() ==> (#[trigger] batch_steps(
            s,
            d,
            pt,
            pd,
        )[i]).0 >= batch_steps(s, d, pt, pd)[i - 1].0,
        forall|i: int| 0 <= i < batch_steps(s, d, pt, pd).len() ==> (#[trigger] batch_steps(
            s,
            d,
            pt,
            pd,
        )[i]).0 >= pt,
    decreases s.len(),
{
    if s.len() == 0 {
        let o = batch_steps(s, d, pt, pd);
        if pd.len() > 0 {
            assert(o =~= seq![(pt, pd)]);
            assert(o[0].0 == pt);
        }
    } else {
        let rest = s.drop_first();
        assert(forall|j: int| 1 <= j < rest.len() ==> (#[trigger] rest[j]).0 >= rest[j - 1].0);
        assert(rest.len() > 0 ==> rest[0].0 >= s[0].0);
        let o = batch_steps(s, d, pt, pd);
        if s[0].0 - pt < d {
            lemma_batch_steps_sorted(rest, d, pt, pd + s[0].1);
            assert(o == batch_steps(rest, d, pt, pd + s[0].1));
        } else if pd.len() > 0 || pt == 0 {
            lemma_batch_steps_sorted(rest, d, s[0].0, s[0].1);
            let tail = batch_steps(rest, d, s[0].0, s[0].1);
            assert(o =~= seq![(pt, pd)] + tail);
            assert(forall|i: int| 1 <= i < o.len() ==> o[i] == tail[i - 1]);
            assert(o[0].0 == pt);
            assert forall|i: int| 1 <= i < o.len() implies (#[trigger] o[i]).0 >= o[i - 1].0 by {
                if i == 1 {
                    assert(tail[0].0 >= s[0].0 >= pt);
                } else {
                    assert(tail[i - 1].0 >= tail[i - 2].0);
                }
            }
            assert forall|i: int| 0 <= i < o.len() implies (#[trigger] o[i]).0 >= pt by {
                if i > 0 {
                    assert(tail[i - 1].0 >= s[0].0 >= pt);
                }
            }
        } else {
            lemma_batch_steps_sorted(rest, d, s[0].0, s[0].1);
            assert(o == batch_steps(rest, d, s[0].0, s[0].1));
            assert(forall|i: int| 0 <= i < o.len() ==> (#[trigger] o[i]).0 >= s[0].0 >= pt);
        }
    }
}

/// Law: batching preserves the order of timestamps.
pub proof fn lemma_batch_sorted(s: Seq<(u64, Seq<char>)>, cap: u8)
    requires
        sorted_view(s),
    ensures
        sorted_view(batch_spec(s, cap)),
{
    lemma_batch_steps_sorted(s, 1_000_000int / cap as int, 0, Seq::empty());
}

/// The synthetic anchor event at time 0 prepended to every stream so that
/// the first frame exists even before any real output.
pub open spec fn anchored(s: Seq<(u64, Seq<char>)>) -> Seq<(u64, Seq<char>)> {
    seq![(0u64, Seq::<char>::empty())] + s
}

/// The whole timeline transformation, in its fixed order: anchor, then
/// idle-limit, then speed-scale, then fps-batch.
pub open spec fn pipeline_spec(s: Seq<(u64, Seq<char>)>, limit: u64, speed: u64, cap: u8) -> Seq<
    (u64, Seq<char>),
> {
    batch_spec(accelerated_seq(limited_seq(anchored(s), limit), speed), cap)
}

/// Prepends the anchor event to a stream.
#[verifier::loop_isolation(false)]
fn anchor_events(events: &Vec<OutputEvent>) -> (r: Vec<OutputEvent>)
    requires
        sorted_events(events@),
    ensures
        events_view(r@) == anchored(events_view(events@)),
        sorted_events(r@),
{
    let ghost sv = events_view(events@);
    let mut out: Vec<OutputEvent> = Vec::new();
    out.push((0, String::new()));
    let mut i: usize = 0;
    while i < events.len()
        invariant
            i <= events@.len(),
            out@.len() == i + 1,
            events_view(out@) =~= anchored(sv).subrange(0, i + 1),
        decreases events@.len() - i,
    {
        out.push((events[i].0, events[i].1.clone()));
        assert(events_view(out@) =~= anchored(sv).subrange(0, i + 2));
        i = i + 1;
    }
    assert(events_view(out@) =~= anchored(sv));
    assert forall|j: int| 1 <= j < out@.len() implies (#[trigger] out@[j]).0 >= out@[j - 1].0 by {
        assert(events_view(out@)[j].0 >= events_view(out@)[j - 1].0);
    }
    out
}

/// The first event whose scaled timestamp would overflow, if any.
#[verifier::loop_isolation(false)]
fn find_scaled_overflow(events: &Vec<OutputEvent>, speed: u64) -> (r: Option<usize>)
    requires
        speed >= 1,
    ensures
        match r {
            Some(i) => i < events@.len() && scaled_time(events@[i as int].0, speed) > u64::MAX,
            None => forall|i: int|
                0 <= i < events@.len() ==> scaled_time((#[trigger] events@[i]).0, speed)
                    <= u64::MAX,
        },
{
    let mut k: usize = 0;
    while k < events.len()
        invariant
            k <= events@.len(),
            forall|j: int| 0 <= j < k ==> scaled_time((#[trigger] events@[j]).0, speed)
                <= u64::MAX,
        decreases events@.len() - k,
    {
        let t = events[k].0;
        if ((t as u128) * 1_000_000u128) / (speed as u128) > (u64::MAX as u128) {
            return Some(k);
        }
        k = k + 1;
    }
    None
}

/// Applies the three timeline transforms in their fixed order to the
/// anchored stream. `None` exactly when some idle-limited timestamp would
/// overflow the 64-bit microsecond range after speed scaling (possible
/// only when slowing playback down).
#[verifier::rlimit(100)]
pub fn transform_events(events: &Vec<OutputEvent>, limit: u64, speed: u64, fps_cap: u8) -> (r:
    Option<Vec<OutputEvent>>)
    requires
        speed >= 1,
        fps_cap >= 1,
        sorted_events(events@),
    ensures
        match r {
            Some(out) => {
                &&& events_view(out@) == pipeline_spec(events_view(events@), limit, speed, fps_cap)
                &&& sorted_events(out@)
            },
            None => exists|i: int|
                0 <= i < anchored(events_view(events@)).len() && scaled_time(
                    (limited_seq(anchored(events_view(events@)), limit)[i]).0,
                    speed,
                ) > u64::MAX,
        },
{
    let ghost sv = events_view(events@);
    let anchored_events = anchor_events(events);
    let limited = limit_idle_time(&anchored_events, limit);
    proof {
        lemma_sorted_events_iff_view(anchored_events@);
        lemma_idle_limit_sorted(anchored(sv), limit);
        lemma_sorted_events_iff_view(limited@);
    }
    match find_scaled_overflow(&limited, speed) {
        Some(i) => {
            proof {
                assert(limited@[i as int].0 == events_view(limited@)[i as int].0);
                assert(scaled_time(limited_seq(anchored(sv), limit)[i as int].0, speed)
                    > u64::MAX);
            }
            None
        },
        None => {
            assert(forall|j: int|
                0 <= j < limited@.len() ==> (#[trigger] limited@[j]).0 == events_view(
                    limited@,
                )[j].0);
            let scaled = accelerate(&limited, speed);
            proof {
                lemma_accelerate_sorted(limited_seq(anchored(sv), limit), speed);
                lemma_sorted_events_iff_view(scaled@);
            }
            let batched = batch(&scaled, fps_cap);
            proof {
                lemma_batch_sorted(
                    accelerated_seq(limited_seq(anchored(sv), limit), speed),
                    fps_cap,
                );
                lemma_sorted_events_iff_view(batched@);
            }
            Some(batched)
        },
    }
}

} // verus!
