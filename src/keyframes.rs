//! Locating the keyframes around a timestamp with a bounded, widening search,
//! and the preflight report that a lossless cut derives from them.
use vstd::prelude::*;
use crate::error::{EngineError, ParseIssue};
use crate::json::{
    array_member, array_member_of, json_document, json_error_text, json_member, json_text, member,
    parse_json, text,
};
use crate::text::{chars_of, micros_of, micros_text, parse_micros, push_micros, push_str, string_of};

verus! {

/// The largest timestamp, in microseconds, that the engine plans with.
pub const MAX_TIMESTAMP_US: i64 = 9_000_000_000_000_000_000;

/// The search windows, in microseconds: one, ten and sixty minutes.
pub open spec fn window_us(w: nat) -> i64 {
    if w == 0 {
        60_000_000
    } else if w == 1 {
        600_000_000
    } else {
        3_600_000_000
    }
}

pub const SEARCH_WINDOWS: usize = 3;

/// Which keyframe is sought.
#[derive(PartialEq, Eq, Structural, Debug, Clone, Copy)]
pub enum Side {
    /// The latest keyframe at or before the target.
    AtOrBefore,
    /// The earliest keyframe at or after the target.
    AtOrAfter,
}

/// The time range that the inspector reads for one window: from the target
/// back by the window (not before 0), or from the target on by the window.
pub open spec fn interval_bounds(target: i64, side: Side, w: nat) -> (int, int) {
    match side {
        Side::AtOrBefore => (
            if target - window_us(w) < 0 {
                0
            } else {
                target - window_us(w)
            },
            target as int,
        ),
        Side::AtOrAfter => (target as int, target + window_us(w)),
    }
}

/// The inspector's `start%end` interval for one window.
pub open spec fn interval_text(target: i64, side: Side, w: nat) -> Seq<char> {
    let (a, b) = interval_bounds(target, side, w);
    micros_text(a) + "%"@ + micros_text(b)
}

fn window_length(w: usize) -> (r: i64)
    ensures
        r == window_us(w as nat),
{
    if w == 0 {
        60_000_000
    } else if w == 1 {
        600_000_000
    } else {
        3_600_000_000
    }
}

/// The interval argument that the inspector reads for window `w`.
pub fn read_intervals(target_us: i64, side: Side, w: usize) -> (r: String)
    requires
        0 <= target_us <= MAX_TIMESTAMP_US,
    ensures
        r@ == interval_text(target_us, side, w as nat),
{
    let len = window_length(w);
    let (a, b) = match side {
        Side::AtOrBefore => (if target_us - len < 0 { 0 } else { target_us - len }, target_us),
        Side::AtOrAfter => (target_us, target_us + len),
    };
    let mut out: Vec<char> = Vec::new();
    push_micros(&mut out, a);
    push_str(&mut out, "%");
    push_micros(&mut out, b);
    assert(out@ =~= interval_text(target_us, side, w as nat));
    string_of(&out)
}

/// The keyframe that an answer gives: the latest of its times when looking
/// back; when looking ahead, the earliest that is not before the target
/// (with one microsecond of tolerance).
pub open spec fn picks(times: Seq<i64>, target: i64, side: Side, k: Option<i64>) -> bool {
    match side {
        Side::AtOrBefore => match k {
            Some(m) => times.contains(m) && forall|i: int| 0 <= i < times.len() ==> times[i] <= m,
            None => times.len() == 0,
        },
        Side::AtOrAfter => match k {
            Some(m) => times.contains(m) && m + 1 >= target && forall|i: int|
                0 <= i < times.len() && times[i] + 1 >= target ==> m <= times[i],
            None => forall|i: int| 0 <= i < times.len() ==> times[i] + 1 < target,
        },
    }
}

/// Picks the keyframe that an answer gives.
pub fn pick_keyframe(times: &Vec<i64>, target_us: i64, side: Side) -> (r: Option<i64>)
    requires
        0 <= target_us <= MAX_TIMESTAMP_US,
    ensures
        picks(times@, target_us, side, r),
{
    let mut best: Option<i64> = None;
    let mut i: usize = 0;
    while i < times.len()
        invariant
            0 <= target_us <= MAX_TIMESTAMP_US,
            i <= times@.len(),
            picks(times@.take(i as int), target_us, side, best),
        decreases times@.len() - i,
    {
        let t = times[i];
        let ghost pre = times@.take(i as int);
        assert(times@.take(i + 1) =~= pre.push(t));
        match side {
            Side::AtOrBefore => {
                match best {
                    Some(m) => {
                        if t > m {
                            best = Some(t);
                        }
                    },
                    None => {
                        best = Some(t);
                    },
                }
                assert(times@.take(i + 1).contains(best->Some_0)) by {
                    if best == Some(t) {
                        assert(times@.take(i + 1)[i as int] == t);
                    } else {
                        let j = choose|j: int| 0 <= j < pre.len() && pre[j] == best->Some_0;
                        assert(times@.take(i + 1)[j] == best->Some_0);
                    }
                }
            },
            Side::AtOrAfter => {
                if t >= target_us - 1 {
                    match best {
                        Some(m) => {
                            if t < m {
                                best = Some(t);
                            }
                        },
                        None => {
                            best = Some(t);
                        },
                    }
                }
                if best.is_some() {
                    assert(times@.take(i + 1).contains(best->Some_0)) by {
                        if best == Some(t) {
                            assert(times@.take(i + 1)[i as int] == t);
                        } else {
                            let j = choose|j: int| 0 <= j < pre.len() && pre[j] == best->Some_0;
                            assert(times@.take(i + 1)[j] == best->Some_0);
                        }
                    }
                }
            },
        }
        i = i + 1;
    }
    assert(times@.take(times@.len() as int) =~= times@);
    best
}

/// A timestamp rounded to whole milliseconds, halves away from zero; where
/// that leaves the range of `i64`, cut to whole milliseconds toward zero.
pub open spec fn rounded_to_millis(t: int) -> int {
    let m = if t >= 0 {
        t
    } else {
        -t
    };
    let up = ((m + 500) / 1000) * 1000;
    let mag = if up <= i64::MAX {
        up
    } else {
        (m / 1000) * 1000
    };
    if t >= 0 {
        mag
    } else {
        -mag
    }
}

/// Rounds a timestamp to whole milliseconds.
pub fn round_to_millis(t: i64) -> (r: i64)
    ensures
        r == rounded_to_millis(t as int),
{
    let m: i128 = if t >= 0 {
        t as i128
    } else {
        -(t as i128)
    };
    let up: i128 = ((m + 500) / 1000) * 1000;
    let mag: i128 = if up <= i64::MAX as i128 {
        up
    } else {
        (m / 1000) * 1000
    };
    if t >= 0 {
        mag as i64
    } else {
        (-mag) as i64
    }
}

/// What the search asks for next, or how it ended.
#[derive(PartialEq, Eq, Debug, Clone)]
pub enum SearchStep {
    /// Run the inspector over this interval and hand back its keyframe times.
    Query(String),
    /// The keyframe, rounded to whole milliseconds.
    Found(i64),
    /// No window held a keyframe on this side.
    NotFound,
}

/// A search for the keyframe on one side of a target time. It reads windows
/// of growing width around the target and stops at the first that holds a
/// keyframe on its side.
#[derive(Debug, Clone, Copy)]
pub struct KeyframeSearch {
    pub target_us: i64,
    pub side: Side,
    /// The window that the last query read.
    pub window: usize,
}

impl KeyframeSearch {
    pub open spec fn wf(&self) -> bool {
        0 <= self.target_us <= MAX_TIMESTAMP_US && self.window < SEARCH_WINDOWS
    }

    /// A search, and the first query it makes.
    pub fn start(target_us: i64, side: Side) -> (r: (KeyframeSearch, String))
        requires
            0 <= target_us <= MAX_TIMESTAMP_US,
        ensures
            r.0.wf(),
            r.0.target_us == target_us && r.0.side == side && r.0.window == 0,
            r.1@ == interval_text(target_us, side, 0),
    {
        (KeyframeSearch { target_us, side, window: 0 }, read_intervals(target_us, side, 0))
    }

    /// Takes the answer to the last query: the keyframe times the inspector
    /// found, or `None` where it failed. Stops at a keyframe on the sought
    /// side; else asks for the next window, while there is one.
    pub fn advance(&mut self, answer: Option<Vec<i64>>) -> (r: SearchStep)
        requires
            old(self).wf(),
        ensures
            final(self).target_us == old(self).target_us,
            final(self).side == old(self).side,
            final(self).wf(),
            ({
                let found = match answer {
                    Some(times) => exists|k: i64|
                        picks(times@, old(self).target_us, old(self).side, Some(k)),
                    None => false,
                };
                if found {
                    r matches SearchStep::Found(f) && exists|k: i64|
                        #![auto]
                        picks(answer->Some_0@, old(self).target_us, old(self).side, Some(k))
                            && f == rounded_to_millis(k as int)
                } else if old(self).window + 1 < SEARCH_WINDOWS {
                    final(self).window == old(self).window + 1 && (r matches SearchStep::Query(q)
                        && q@ == interval_text(
                        old(self).target_us,
                        old(self).side,
                        final(self).window as nat,
                    ))
                } else {
                    r == SearchStep::NotFound
                }
            }),
    {
        let picked = match &answer {
            Some(times) => pick_keyframe(times, self.target_us, self.side),
            None => None,
        };
        match picked {
            Some(k) => {
                return SearchStep::Found(round_to_millis(k));
            },
            None => {
                proof {
                    if answer is Some {
                        lemma_picks_unique_none(answer->Some_0@, self.target_us, self.side);
                    }
                }
            },
        }
        if self.window + 1 < SEARCH_WINDOWS {
            self.window = self.window + 1;
            SearchStep::Query(read_intervals(self.target_us, self.side, self.window))
        } else {
            SearchStep::NotFound
        }
    }
}

proof fn lemma_picks_unique_none(times: Seq<i64>, target: i64, side: Side)
    requires
        picks(times, target, side, None),
    ensures
        !exists|k: i64| picks(times, target, side, Some(k)),
{
    if exists|k: i64| picks(times, target, side, Some(k)) {
        let k = choose|k: i64| picks(times, target, side, Some(k));
        let j = choose|j: int| 0 <= j < times.len() && times[j] == k;
        assert(times[j] == k);
    }
}

/// The timestamps that a frame listing gives, in order; entries without a
/// readable timestamp are left out.
pub open spec fn frame_times(frames: Seq<serde_json::Value>) -> Seq<i64>
    decreases frames.len(),
{
    if frames.len() == 0 {
        Seq::empty()
    } else {
        let rest = frame_times(frames.drop_last());
        match json_member(frames.last(), "best_effort_timestamp_time"@) {
            Some(v) => match json_text(v) {
                Some(t) => match micros_of(t) {
                    Some(us) => rest.push(us),
                    None => rest,
                },
                None => rest,
            },
            None => rest,
        }
    }
}

/// Reads the keyframe times, in microseconds, of the inspector's JSON frame
/// listing.
pub fn keyframe_times_from_json(stdout: &[u8]) -> (r: Result<Vec<i64>, EngineError>)
    ensures
        match json_document(stdout@) {
            None => r matches Err(EngineError::Parse(ParseIssue::InvalidJson(_))),
            Some(doc) => r matches Ok(t) && t@ == frame_times(array_member(doc, "frames"@)),
        },
{
    let doc = match parse_json(stdout) {
        Ok(d) => d,
        Err(e) => {
            return Err(EngineError::Parse(ParseIssue::InvalidJson(json_error_text(&e))));
        },
    };
    let mut times: Vec<i64> = Vec::new();
    match array_member_of(&doc, "frames") {
        Some(frames) => {
            let mut i: usize = 0;
            while i < frames.len()
                invariant
                    frames@ == array_member(doc, "frames"@),
                    i <= frames@.len(),
                    times@ == frame_times(frames@.take(i as int)),
                decreases frames@.len() - i,
            {
                let f = &frames[i];
                assert(frames@.take(i + 1).drop_last() =~= frames@.take(i as int));
                assert(frames@.take(i + 1).last() == *f);
                match member(f, "best_effort_timestamp_time") {
                    Some(v) => match text(v) {
                        Some(t) => match parse_micros(&chars_of(t)) {
                            Some(us) => times.push(us),
                            None => {},
                        },
                        None => {},
                    },
                    None => {},
                }
                i = i + 1;
            }
            assert(frames@.take(frames@.len() as int) =~= frames@);
        },
        None => {},
    }
    Ok(times)
}


/// What a lossless cut would realize around the requested in and out times.
#[derive(PartialEq, Eq, Structural, Debug, Clone, Copy)]
pub struct PreflightReport {
    pub in_time_us: i64,
    pub nearest_keyframe_us: Option<i64>,
    pub next_keyframe_us: Option<i64>,
    /// How much earlier than requested the cut would start.
    pub start_shift_us: Option<i64>,
    pub out_time_us: i64,
    pub out_prev_keyframe_us: Option<i64>,
    pub out_next_keyframe_us: Option<i64>,
    /// How much later than requested the cut could end.
    pub end_shift_us: Option<i64>,
}

/// A value cut to the range of `i64`.
pub open spec fn clamped(v: int) -> i64 {
    if v > i64::MAX {
        i64::MAX
    } else if v < i64::MIN {
        i64::MIN
    } else {
        v as i64
    }
}

fn clamp(v: i128) -> (r: i64)
    ensures
        r == clamped(v as int),
{
    if v > i64::MAX as i128 {
        i64::MAX
    } else if v < i64::MIN as i128 {
        i64::MIN
    } else {
        v as i64
    }
}

/// The start shift from the keyframe at or before the in-time: the gap to
/// it, or 0 where it is no earlier than the in-time.
pub open spec fn start_shift(in_us: i64, kf: Option<i64>) -> Option<i64> {
    match kf {
        Some(k) => Some(if k <= in_us { clamped(in_us - k) } else { 0 }),
        None => None,
    }
}

/// The end shift from the keyframe at or after the out-time: the gap to it
/// where it is more than a microsecond later, else 0.
pub open spec fn end_shift(out_us: i64, kf: Option<i64>) -> Option<i64> {
    match kf {
        Some(k) => Some(if k > out_us + 1 { clamped(k - out_us) } else { 0 }),
        None => None,
    }
}

/// Whether the in-point needs a keyframe search; the start of the file is
/// its own keyframe.
pub fn in_point_needs_search(in_us: i64) -> (r: bool)
    ensures
        r == (in_us > 0),
{
    in_us > 0
}

/// The preflight report from the requested times and the keyframes found
/// around each (`None` where a search found none). An in-time of 0 or less
/// has the keyframes 0 on both sides, whatever `in_keyframes` holds.
pub fn lossless_preflight_report(
    in_us: i64,
    out_us: i64,
    in_keyframes: (Option<i64>, Option<i64>),
    out_keyframes: (Option<i64>, Option<i64>),
) -> (r: PreflightReport)
    ensures
        in_us <= 0 ==> r.nearest_keyframe_us == Some(0i64) && r.next_keyframe_us == Some(0i64),
        in_us > 0 ==> r.nearest_keyframe_us == in_keyframes.0 && r.next_keyframe_us
            == in_keyframes.1,
        r.start_shift_us == start_shift(in_us, r.nearest_keyframe_us),
        r.in_time_us == in_us,
        r.out_time_us == out_us,
        r.out_prev_keyframe_us == out_keyframes.0,
        r.out_next_keyframe_us == out_keyframes.1,
        r.end_shift_us == end_shift(out_us, out_keyframes.1),
{
    let (nearest, next) = if in_us <= 0 {
        (Some(0i64), Some(0i64))
    } else {
        in_keyframes
    };
    let start_shift_us = match nearest {
        Some(k) => Some(
            if k <= in_us {
                clamp(in_us as i128 - k as i128)
            } else {
                0
            },
        ),
        None => None,
    };
    let end_shift_us = match out_keyframes.1 {
        Some(k) => Some(
            if k as i128 > out_us as i128 + 1 {
                clamp(k as i128 - out_us as i128)
            } else {
                0
            },
        ),
        None => None,
    };
    PreflightReport {
        in_time_us: in_us,
        nearest_keyframe_us: nearest,
        next_keyframe_us: next,
        start_shift_us,
        out_time_us: out_us,
        out_prev_keyframe_us: out_keyframes.0,
        out_next_keyframe_us: out_keyframes.1,
        end_shift_us,
    }
}

} // verus!
