//! Gap and segment planner: walks the ordered timeline and produces an
//! alternating list of clip and gap segments that covers the output exactly.
//!
//! A cursor starts at zero. Each clip first yields a gap segment when its
//! start lies beyond the cursor, then a clip segment for its trim window;
//! the cursor jumps to the clip's end. No trailing gap is emitted: the
//! total duration is the end of the last clip.

use vstd::prelude::*;

use crate::clip::Clip;
use crate::timeline::Timeline;
use crate::timeline::sorted_by_start;

verus! {

/// One planning unit of the output timeline.
#[derive(Clone, Copy, Debug, PartialEq, Eq, Structural)]
pub enum Segment {
    /// The clip at `index` on the timeline plays its trim window, which
    /// starts at `trim_in_ms` of source time and runs for `duration_ms`.
    Clip { index: usize, trim_in_ms: u64, duration_ms: u64 },
    /// No clip covers the next `duration_ms`; filled with black video and
    /// silence.
    Gap { duration_ms: u64 },
}

impl Segment {
    /// How much output time the segment covers.
    pub open spec fn spec_duration(self) -> int {
        match self {
            Segment::Clip { duration_ms, .. } => duration_ms as int,
            Segment::Gap { duration_ms } => duration_ms as int,
        }
    }
}

/// The segments the clips from position `i` onward contribute, with the
/// cursor standing at `cursor`.
pub open spec fn plan_from(clips: Seq<Clip>, i: int, cursor: int) -> Seq<Segment>
    decreases clips.len() - i,
{
    if i < 0 || i >= clips.len() {
        Seq::<Segment>::empty()
    } else {
        let c = clips[i];
        let clip_seg = Segment::Clip {
            index: i as usize,
            trim_in_ms: c.trim_in_ms,
            duration_ms: (c.end_ms - c.start_ms) as u64,
        };
        let rest = plan_from(clips, i + 1, c.end_ms as int);
        if c.start_ms > cursor {
            seq![Segment::Gap { duration_ms: (c.start_ms - cursor) as u64 }, clip_seg] + rest
        } else {
            seq![clip_seg] + rest
        }
    }
}

/// The planned segment sequence of an ordered clip sequence.
pub open spec fn plan_spec(clips: Seq<Clip>) -> Seq<Segment> {
    plan_from(clips, 0, 0)
}

/// Total output duration before padding: the end of the last clip.
pub open spec fn total_duration_spec(clips: Seq<Clip>) -> int {
    if clips.len() == 0 {
        0
    } else {
        clips.last().end_ms as int
    }
}

/// Sum of the output time covered by a segment sequence.
pub open spec fn sum_durations(segs: Seq<Segment>) -> int
    decreases segs.len(),
{
    if segs.len() == 0 {
        0
    } else {
        segs.first().spec_duration() + sum_durations(segs.drop_first())
    }
}

/// Produces the planned segments and the total duration for a validated
/// timeline, exactly as `plan_spec` and `total_duration_spec` describe.
#[verifier::loop_isolation(false)]
pub fn plan_segments(t: &Timeline) -> (r: (Vec<Segment>, u64))
    requires
        t.wf(),
    ensures
        r.0@ == plan_spec(t@),
        r.1 == total_duration_spec(t@),
{
    let clips = t.clips();
    let mut segs: Vec<Segment> = Vec::new();
    let mut cursor: u64 = 0;
    let mut i: usize = 0;
    proof {
        assert(plan_spec(t@) == segs@ + plan_from(t@, 0, 0)) by {
            assert(segs@ + plan_from(t@, 0, 0) =~= plan_from(t@, 0, 0));
        }
    }
    while i < clips.len()
        invariant
            0 <= i <= t@.len(),
            i == 0 ==> cursor == 0,
            i > 0 ==> cursor == t@[i - 1].end_ms,
            i < t@.len() ==> cursor <= t@[i as int].start_ms,
            plan_spec(t@) == segs@ + plan_from(t@, i as int, cursor as int),
        decreases t@.len() - i,
    {
        let c = &clips[i];
        let ghost old_segs = segs@;
        if c.start_ms > cursor {
            segs.push(Segment::Gap { duration_ms: c.start_ms - cursor });
        }
        segs.push(
            Segment::Clip {
                index: i,
                trim_in_ms: c.trim_in_ms,
                duration_ms: c.end_ms - c.start_ms,
            },
        );
        proof {
            let clip_seg = Segment::Clip {
                index: i as usize,
                trim_in_ms: t@[i as int].trim_in_ms,
                duration_ms: (t@[i as int].end_ms - t@[i as int].start_ms) as u64,
            };
            let rest = plan_from(t@, i + 1, t@[i as int].end_ms as int);
            if t@[i as int].start_ms > cursor {
                let gap_seg = Segment::Gap {
                    duration_ms: (t@[i as int].start_ms - cursor) as u64,
                };
                assert(plan_from(t@, i as int, cursor as int) == seq![gap_seg, clip_seg] + rest);
                assert(segs@ =~= old_segs + seq![gap_seg, clip_seg]);
                assert(old_segs + (seq![gap_seg, clip_seg] + rest) =~= (old_segs + seq![
                    gap_seg,
                    clip_seg,
                ]) + rest);
            } else {
                assert(plan_from(t@, i as int, cursor as int) == seq![clip_seg] + rest);
                assert(segs@ =~= old_segs + seq![clip_seg]);
                assert(old_segs + (seq![clip_seg] + rest) =~= (old_segs + seq![clip_seg]) + rest);
            }
        }
        cursor = c.end_ms;
        i = i + 1;
    }
    proof {
        assert(segs@ + plan_from(t@, t@.len() as int, cursor as int) =~= segs@);
    }
    (segs, cursor)
}

/// Single-clip round trip: one valid clip placed at the start of the
/// timeline plans to exactly one clip segment and no gaps, and the total
/// duration is the clip's own.
pub proof fn lemma_single_clip_round_trip(c: Clip)
    requires
        c.spec_valid(),
        c.start_ms == 0,
    ensures
        plan_spec(seq![c]) =~= seq![
            Segment::Clip {
                index: 0,
                trim_in_ms: c.trim_in_ms,
                duration_ms: (c.end_ms - c.start_ms) as u64,
            },
        ],
        total_duration_spec(seq![c]) == c.end_ms,
{
    let s = seq![c];
    assert(plan_from(s, 1, c.end_ms as int) =~= Seq::<Segment>::empty());
}

/// Gap correctness for two separated clips: the first at the start of
/// the timeline, the second strictly later, plan to clip, gap of exactly
/// the span between them, clip.
pub proof fn lemma_two_clip_gap(a: Clip, b: Clip)
    requires
        a.spec_valid(),
        b.spec_valid(),
        a.start_ms == 0,
        a.end_ms < b.start_ms,
    ensures
        plan_spec(seq![a, b]) =~= seq![
            Segment::Clip {
                index: 0,
                trim_in_ms: a.trim_in_ms,
                duration_ms: (a.end_ms - a.start_ms) as u64,
            },
            Segment::Gap { duration_ms: (b.start_ms - a.end_ms) as u64 },
            Segment::Clip {
                index: 1,
                trim_in_ms: b.trim_in_ms,
                duration_ms: (b.end_ms - b.start_ms) as u64,
            },
        ],
        total_duration_spec(seq![a, b]) == b.end_ms,
{
    let s = seq![a, b];
    assert(plan_from(s, 2, b.end_ms as int) =~= Seq::<Segment>::empty());
    assert(s[1] == b);
    let tail = plan_from(s, 1, a.end_ms as int);
    assert(tail =~= seq![
        Segment::Gap { duration_ms: (b.start_ms - a.end_ms) as u64 },
        Segment::Clip {
            index: 1,
            trim_in_ms: b.trim_in_ms,
            duration_ms: (b.end_ms - b.start_ms) as u64,
        },
    ]);
    assert(plan_spec(s) =~= seq![
        Segment::Clip {
            index: 0,
            trim_in_ms: a.trim_in_ms,
            duration_ms: (a.end_ms - a.start_ms) as u64,
        },
    ] + tail);
}

/// Duration conservation, first half: the planned segment durations sum to
/// the span between the cursor and the end of the last clip.
proof fn lemma_plan_from_sum(clips: Seq<Clip>, i: int, cursor: int)
    requires
        0 <= i < clips.len(),
        sorted_by_start(clips),
        forall|k: int| 0 <= k < clips.len() ==> (#[trigger] clips[k]).spec_valid(),
        forall|k: int|
            0 <= k < clips.len() - 1 ==> (#[trigger] clips[k]).end_ms <= clips[k + 1].start_ms,
        0 <= cursor <= clips[i].start_ms,
    ensures
        sum_durations(plan_from(clips, i, cursor)) == clips.last().end_ms - cursor,
    decreases clips.len() - i,
{
    let c = clips[i];
    let clip_seg = Segment::Clip {
        index: i as usize,
        trim_in_ms: c.trim_in_ms,
        duration_ms: (c.end_ms - c.start_ms) as u64,
    };
    let rest = plan_from(clips, i + 1, c.end_ms as int);
    if i == clips.len() - 1 {
        assert(rest =~= Seq::<Segment>::empty());
    } else {
        lemma_plan_from_sum(clips, i + 1, c.end_ms as int);
    }
    assert(sum_durations(rest) == clips.last().end_ms - c.end_ms);
    if c.start_ms > cursor {
        let gap_seg = Segment::Gap { duration_ms: (c.start_ms - cursor) as u64 };
        let mid = seq![clip_seg] + rest;
        let whole = seq![gap_seg, clip_seg] + rest;
        assert(plan_from(clips, i, cursor) == whole);
        assert(mid.first() == clip_seg);
        assert(mid.drop_first() =~= rest);
        assert(sum_durations(mid) == clip_seg.spec_duration() + sum_durations(rest));
        assert(whole.first() == gap_seg);
        assert(whole.drop_first() =~= mid);
        assert(sum_durations(whole) == gap_seg.spec_duration() + sum_durations(mid));
    } else {
        let whole = seq![clip_seg] + rest;
        assert(plan_from(clips, i, cursor) == whole);
        assert(whole.first() == clip_seg);
        assert(whole.drop_first() =~= rest);
        assert(sum_durations(whole) == clip_seg.spec_duration() + sum_durations(rest));
    }
}

/// Duration conservation: the planned segment durations sum exactly to the
/// total duration, which is the largest clip end time.
pub proof fn lemma_duration_conservation(clips: Seq<Clip>)
    requires
        clips.len() >= 1,
        sorted_by_start(clips),
        forall|k: int| 0 <= k < clips.len() ==> (#[trigger] clips[k]).spec_valid(),
        forall|k: int|
            0 <= k < clips.len() - 1 ==> (#[trigger] clips[k]).end_ms <= clips[k + 1].start_ms,
    ensures
        sum_durations(plan_spec(clips)) == total_duration_spec(clips),
        forall|k: int|
            0 <= k < clips.len() ==> (#[trigger] clips[k]).end_ms <= total_duration_spec(clips),
{
    lemma_plan_from_sum(clips, 0, 0);
    assert forall|k: int| 0 <= k < clips.len() implies (#[trigger] clips[k]).end_ms
        <= total_duration_spec(clips) by {
        lemma_end_times_ordered(clips, k);
    }
}

/// On a sorted, non-overlapping timeline the clip at `k` ends no later than
/// the last clip.
proof fn lemma_end_times_ordered(clips: Seq<Clip>, k: int)
    requires
        0 <= k < clips.len(),
        sorted_by_start(clips),
        forall|m: int| 0 <= m < clips.len() ==> (#[trigger] clips[m]).spec_valid(),
        forall|m: int|
            0 <= m < clips.len() - 1 ==> (#[trigger] clips[m]).end_ms <= clips[m + 1].start_ms,
    ensures
        clips[k].end_ms <= clips.last().end_ms,
    decreases clips.len() - k,
{
    if k < clips.len() - 1 {
        assert(clips[k].end_ms <= clips[k + 1].start_ms);
        assert(clips[k + 1].start_ms <= clips[k + 1].end_ms);
        lemma_end_times_ordered(clips, k + 1);
    }
}

} // verus!
