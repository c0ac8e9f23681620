//! Timeline normalizer: sorts a clip set by start time (stable) and
//! validates it into a canonical ordered sequence.
//!
//! The canonical order is `sort_clips`, a stable insertion sort by
//! `start_ms`. Every public function is specified against it, so two runs
//! over the same input always produce the same timeline.

use vstd::prelude::*;

use crate::clip::Clip;
use crate::error::ExportError;

verus! {

/// Clips ordered by placement start, pairwise.
pub open spec fn sorted_by_start(s: Seq<Clip>) -> bool {
    forall|i: int, j: int|
        0 <= i < j < s.len() ==> #[trigger] s[i].start_ms <= #[trigger] s[j].start_ms
}

/// Where a stable insertion puts `c` into `s`: after every element whose
/// start is less than or equal to `c`'s, scanning from the right.
pub open spec fn insert_pos(s: Seq<Clip>, c: Clip) -> int
    decreases s.len(),
{
    if s.len() == 0 {
        0
    } else if s.last().start_ms <= c.start_ms {
        s.len() as int
    } else {
        insert_pos(s.drop_last(), c)
    }
}

/// `s` with `c` inserted at its stable position.
pub open spec fn insert_clip(s: Seq<Clip>, c: Clip) -> Seq<Clip> {
    let j = insert_pos(s, c);
    s.subrange(0, j) + seq![c] + s.subrange(j, s.len() as int)
}

/// Stable insertion sort by `start_ms`: ties keep their input order.
pub open spec fn sort_clips(s: Seq<Clip>) -> Seq<Clip>
    decreases s.len(),
{
    if s.len() == 0 {
        Seq::<Clip>::empty()
    } else {
        insert_clip(sort_clips(s.drop_last()), s.last())
    }
}

pub proof fn lemma_insert_pos_bounds(s: Seq<Clip>, c: Clip)
    ensures
        0 <= insert_pos(s, c) <= s.len(),
    decreases s.len(),
{
    if s.len() > 0 && !(s.last().start_ms <= c.start_ms) {
        lemma_insert_pos_bounds(s.drop_last(), c);
    }
}

/// On a sorted sequence the insertion point separates the starts: everything
/// before it starts no later than `c`, everything from it on starts strictly
/// later.
pub proof fn lemma_insert_pos_sorted(s: Seq<Clip>, c: Clip)
    requires
        sorted_by_start(s),
    ensures
        0 <= insert_pos(s, c) <= s.len(),
        forall|k: int| 0 <= k < insert_pos(s, c) ==> #[trigger] s[k].start_ms <= c.start_ms,
        forall|k: int| insert_pos(s, c) <= k < s.len() ==> #[trigger] s[k].start_ms > c.start_ms,
    decreases s.len(),
{
    lemma_insert_pos_bounds(s, c);
    if s.len() == 0 {
    } else if s.last().start_ms <= c.start_ms {
    } else {
        assert(sorted_by_start(s.drop_last())) by {
            assert forall|i: int, j: int| 0 <= i < j < s.len() - 1 implies #[trigger] s.drop_last(
            )[i].start_ms <= #[trigger] s.drop_last()[j].start_ms by {
                assert(s[i].start_ms <= s[j].start_ms);
            }
        }
        lemma_insert_pos_sorted(s.drop_last(), c);
        let j = insert_pos(s, c);
        assert forall|k: int| 0 <= k < j implies #[trigger] s[k].start_ms <= c.start_ms by {
            assert(s.drop_last()[k] == s[k]);
        }
        assert forall|k: int| j <= k < s.len() implies #[trigger] s[k].start_ms > c.start_ms by {
            if k < s.len() - 1 {
                assert(s.drop_last()[k] == s[k]);
            }
        }
    }
}

pub proof fn lemma_insert_clip_sorted(s: Seq<Clip>, c: Clip)
    requires
        sorted_by_start(s),
    ensures
        sorted_by_start(insert_clip(s, c)),
        insert_clip(s, c).len() == s.len() + 1,
{
    lemma_insert_pos_sorted(s, c);
    let j = insert_pos(s, c);
    let r = insert_clip(s, c);
    assert forall|x: int, y: int| 0 <= x < y < r.len() implies #[trigger] r[x].start_ms
        <= #[trigger] r[y].start_ms by {
        if x < j {
            assert(r[x] == s[x]);
        } else if x == j {
            assert(r[x] == c);
        } else {
            assert(r[x] == s[x - 1]);
        }
        if y < j {
            assert(r[y] == s[y]);
        } else if y == j {
            assert(r[y] == c);
        } else {
            assert(r[y] == s[y - 1]);
        }
    }
}

pub proof fn lemma_sort_clips_sorted(s: Seq<Clip>)
    ensures
        sorted_by_start(sort_clips(s)),
        sort_clips(s).len() == s.len(),
    decreases s.len(),
{
    if s.len() > 0 {
        lemma_sort_clips_sorted(s.drop_last());
        lemma_insert_clip_sorted(sort_clips(s.drop_last()), s.last());
    }
}

/// Every clip of the sorted sequence comes from the input, and conversely.
pub proof fn lemma_sort_clips_contains(s: Seq<Clip>)
    ensures
        forall|k: int|
            0 <= k < sort_clips(s).len() ==> s.contains(#[trigger] sort_clips(s)[k]),
        forall|k: int| 0 <= k < s.len() ==> sort_clips(s).contains(#[trigger] s[k]),
    decreases s.len(),
{
    lemma_sort_clips_sorted(s);
    if s.len() > 0 {
        let prefix = s.drop_last();
        let sorted_prefix = sort_clips(prefix);
        lemma_sort_clips_contains(prefix);
        lemma_sort_clips_sorted(prefix);
        lemma_insert_pos_bounds(sorted_prefix, s.last());
        let j = insert_pos(sorted_prefix, s.last());
        let r = sort_clips(s);
        assert forall|k: int| 0 <= k < r.len() implies s.contains(#[trigger] r[k]) by {
            if k < j {
                assert(r[k] == sorted_prefix[k]);
                assert(prefix.contains(sorted_prefix[k]));
                let m = choose|m: int| 0 <= m < prefix.len() && prefix[m] == sorted_prefix[k];
                assert(s[m] == sorted_prefix[k]);
            } else if k == j {
                assert(r[k] == s.last());
                assert(s[s.len() - 1] == s.last());
            } else {
                assert(r[k] == sorted_prefix[k - 1]);
                assert(prefix.contains(sorted_prefix[k - 1]));
                let m = choose|m: int|
                    0 <= m < prefix.len() && prefix[m] == sorted_prefix[k - 1];
                assert(s[m] == sorted_prefix[k - 1]);
            }
        }
        assert forall|k: int| 0 <= k < s.len() implies r.contains(#[trigger] s[k]) by {
            if k == s.len() - 1 {
                assert(r[j] == s.last());
            } else {
                assert(prefix[k] == s[k]);
                assert(sorted_prefix.contains(s[k]));
                let m = choose|m: int| 0 <= m < sorted_prefix.len() && sorted_prefix[m] == s[k];
                if m < j {
                    assert(r[m] == s[k]);
                } else {
                    assert(r[m + 1] == s[k]);
                }
            }
        }
    }
}

/// No two clips share a placement start time.
pub open spec fn distinct_starts(s: Seq<Clip>) -> bool {
    forall|i: int, j: int|
        0 <= i < j < s.len() ==> (#[trigger] s[i]).start_ms != (#[trigger] s[j]).start_ms
}

/// Sorting keeps exactly the input clips: the multisets agree.
pub proof fn lemma_sort_clips_multiset(s: Seq<Clip>)
    ensures
        sort_clips(s).to_multiset() == s.to_multiset(),
    decreases s.len(),
{
    broadcast use vstd::seq_lib::group_to_multiset_ensures;

    if s.len() > 0 {
        let prefix = s.drop_last();
        let c = s.last();
        lemma_sort_clips_multiset(prefix);
        let sp = sort_clips(prefix);
        lemma_insert_pos_bounds(sp, c);
        let j = insert_pos(sp, c);
        assert(insert_clip(sp, c) =~= sp.insert(j, c));
        assert(sp.insert(j, c).to_multiset() == sp.to_multiset().insert(c));
        assert(prefix.push(c) =~= s);
        assert(prefix.push(c).to_multiset() =~= prefix.to_multiset().insert(c));
    }
}

/// Sorting keeps start times pairwise distinct.
pub proof fn lemma_sort_clips_distinct(s: Seq<Clip>)
    requires
        distinct_starts(s),
    ensures
        distinct_starts(sort_clips(s)),
    decreases s.len(),
{
    if s.len() > 0 {
        let prefix = s.drop_last();
        let c = s.last();
        assert(distinct_starts(prefix)) by {
            assert(forall|k: int| 0 <= k < prefix.len() ==> #[trigger] prefix[k] == s[k]);
        }
        lemma_sort_clips_distinct(prefix);
        lemma_sort_clips_contains(prefix);
        let sp = sort_clips(prefix);
        assert forall|m: int| 0 <= m < sp.len() implies (#[trigger] sp[m]).start_ms
            != c.start_ms by {
            assert(prefix.contains(sp[m]));
            let w = choose|w: int| 0 <= w < prefix.len() && prefix[w] == sp[m];
            assert(s[w] == sp[m]);
            assert(s[w].start_ms != s[s.len() - 1].start_ms);
        }
        lemma_insert_pos_bounds(sp, c);
        let j = insert_pos(sp, c);
        let r = insert_clip(sp, c);
        assert forall|x: int, y: int| 0 <= x < y < r.len() implies (#[trigger] r[x]).start_ms
            != (#[trigger] r[y]).start_ms by {
            if x < j {
                assert(r[x] == sp[x]);
            } else if x == j {
                assert(r[x] == c);
            } else {
                assert(r[x] == sp[x - 1]);
            }
            if y < j {
                assert(r[y] == sp[y]);
            } else if y == j {
                assert(r[y] == c);
            } else {
                assert(r[y] == sp[y - 1]);
            }
        }
    }
}

/// Two sequences sorted by start, holding the same clips, with no
/// repeated start time, are one and the same sequence.
proof fn lemma_sorted_unique_by_start(x: Seq<Clip>, y: Seq<Clip>)
    requires
        sorted_by_start(x),
        sorted_by_start(y),
        distinct_starts(x),
        x.to_multiset() == y.to_multiset(),
    ensures
        x =~= y,
    decreases x.len(),
{
    broadcast use vstd::seq_lib::group_to_multiset_ensures;

    assert(x.len() == y.len()) by {
        assert(x.len() == x.to_multiset().len());
        assert(y.len() == y.to_multiset().len());
    }
    if x.len() > 0 {
        assert(y.contains(y[0]));
        assert(x.to_multiset().count(y[0]) > 0);
        assert(x.contains(y[0]));
        let i = choose|i: int| 0 <= i < x.len() && x[i] == y[0];
        assert(x.contains(x[0]));
        assert(y.to_multiset().count(x[0]) > 0);
        assert(y.contains(x[0]));
        let j = choose|j: int| 0 <= j < y.len() && y[j] == x[0];
        assert(x[0].start_ms <= x[i].start_ms);
        assert(y[0].start_ms <= y[j].start_ms);
        assert(x[0].start_ms == y[0].start_ms);
        assert(x[0] == y[0]) by {
            if i != 0 {
                assert(x[0].start_ms != x[i].start_ms);
            }
        }
        let xd = x.drop_first();
        let yd = y.drop_first();
        assert(xd =~= x.remove(0));
        assert(yd =~= y.remove(0));
        assert(xd.to_multiset() == x.to_multiset().remove(x[0]));
        assert(yd.to_multiset() == y.to_multiset().remove(y[0]));
        assert(sorted_by_start(xd) && distinct_starts(xd)) by {
            assert(forall|k: int| 0 <= k < xd.len() ==> #[trigger] xd[k] == x[k + 1]);
        }
        assert(sorted_by_start(yd)) by {
            assert(forall|k: int| 0 <= k < yd.len() ==> #[trigger] yd[k] == y[k + 1]);
        }
        lemma_sorted_unique_by_start(xd, yd);
        assert forall|k: int| 0 <= k < x.len() implies x[k] == y[k] by {
            if k > 0 {
                assert(xd[k - 1] == yd[k - 1]);
            }
        }
    }
}

/// Ordering stability: two clip sets that hold the same clips, none of
/// which share a start time, normalize to the same ordered timeline,
/// however the input was ordered.
pub proof fn lemma_ordering_stability(s1: Seq<Clip>, s2: Seq<Clip>)
    requires
        s1.to_multiset() == s2.to_multiset(),
        distinct_starts(s1),
    ensures
        sort_clips(s1) == sort_clips(s2),
{
    lemma_sort_clips_multiset(s1);
    lemma_sort_clips_multiset(s2);
    lemma_sort_clips_sorted(s1);
    lemma_sort_clips_sorted(s2);
    lemma_sort_clips_distinct(s1);
    lemma_sorted_unique_by_start(sort_clips(s1), sort_clips(s2));
}

/// Smallest input index holding a clip that breaks a per-clip invariant.
pub open spec fn first_invalid(s: Seq<Clip>) -> Option<int>
    decreases s.len(),
{
    if s.len() == 0 {
        None
    } else if !s.first().spec_valid() {
        Some(0int)
    } else {
        match first_invalid(s.drop_first()) {
            None => None,
            Some(i) => Some(i + 1),
        }
    }
}

pub proof fn lemma_first_invalid_spec(s: Seq<Clip>)
    ensures
        match first_invalid(s) {
            None => forall|k: int| 0 <= k < s.len() ==> (#[trigger] s[k]).spec_valid(),
            Some(i) => 0 <= i < s.len() && !s[i].spec_valid() && forall|k: int|
                0 <= k < i ==> (#[trigger] s[k]).spec_valid(),
        },
    decreases s.len(),
{
    if s.len() > 0 && s.first().spec_valid() {
        let rest = s.drop_first();
        lemma_first_invalid_spec(rest);
        assert(forall|k: int| 0 <= k < rest.len() ==> #[trigger] rest[k] == s[k + 1]);
        match first_invalid(rest) {
            None => {
                assert forall|k: int| 0 <= k < s.len() implies (
                #[trigger] s[k]).spec_valid() by {
                    if k > 0 {
                        assert(rest[k - 1].spec_valid());
                    }
                }
            },
            Some(i) => {
                assert(rest[i] == s[i + 1]);
                assert forall|k: int| 0 <= k < i + 1 implies (
                #[trigger] s[k]).spec_valid() by {
                    if k > 0 {
                        assert(rest[k - 1].spec_valid());
                    }
                }
            },
        }
    }
}

/// Smallest position of a sorted sequence whose clip runs past the start of
/// the next one.
pub open spec fn first_overlap(s: Seq<Clip>) -> Option<int>
    decreases s.len(),
{
    if s.len() < 2 {
        None
    } else if s[0].end_ms > s[1].start_ms {
        Some(0int)
    } else {
        match first_overlap(s.drop_first()) {
            None => None,
            Some(i) => Some(i + 1),
        }
    }
}

pub proof fn lemma_first_overlap_spec(s: Seq<Clip>)
    ensures
        match first_overlap(s) {
            None => forall|k: int|
                0 <= k < s.len() - 1 ==> (#[trigger] s[k]).end_ms <= s[k + 1].start_ms,
            Some(i) => 0 <= i < s.len() - 1 && s[i].end_ms > s[i + 1].start_ms && forall|k: int|
                0 <= k < i ==> (#[trigger] s[k]).end_ms <= s[k + 1].start_ms,
        },
    decreases s.len(),
{
    if s.len() >= 2 && !(s[0].end_ms > s[1].start_ms) {
        let rest = s.drop_first();
        lemma_first_overlap_spec(rest);
        assert(forall|k: int| 0 <= k < rest.len() ==> #[trigger] rest[k] == s[k + 1]);
        match first_overlap(rest) {
            None => {
                assert forall|k: int| 0 <= k < s.len() - 1 implies (#[trigger] s[k]).end_ms
                    <= s[k + 1].start_ms by {
                    if k > 0 {
                        assert(rest[k - 1].end_ms <= rest[k].start_ms);
                    }
                }
            },
            Some(i) => {
                assert(rest[i].end_ms > rest[i + 1].start_ms);
                assert forall|k: int| 0 <= k < i + 1 implies (#[trigger] s[k]).end_ms <= s[k
                    + 1].start_ms by {
                    if k > 0 {
                        assert(rest[k - 1].end_ms <= rest[k].start_ms);
                    }
                }
            },
        }
    }
}

/// The validation verdict on a clip set: the error the normalizer reports,
/// or `None` when the set is acceptable. Checks run in this order: empty
/// set, per-clip invariants in input order, overlap in start order.
pub open spec fn validate_spec(s: Seq<Clip>) -> Option<ExportError> {
    if s.len() == 0 {
        Some(ExportError::EmptyTimeline)
    } else if first_invalid(s) is Some {
        Some(ExportError::InvalidClip { index: first_invalid(s)->Some_0 as usize })
    } else {
        match first_overlap(sort_clips(s)) {
            Some(i) => Some(
                ExportError::Overlap {
                    first_id: sort_clips(s)[i].id,
                    second_id: sort_clips(s)[i + 1].id,
                },
            ),
            None => None,
        }
    }
}

/// A validated, ordered clip sequence covering the output timeline.
#[derive(Debug)]
pub struct Timeline {
    clips: Vec<Clip>,
}

impl View for Timeline {
    type V = Seq<Clip>;

    closed spec fn view(&self) -> Seq<Clip> {
        self.clips@
    }
}

impl Timeline {
    /// What every constructed timeline guarantees: at least one clip, all
    /// clips valid, ordered by start, and no overlap between neighbours.
    pub open spec fn wf(&self) -> bool {
        &&& self@.len() >= 1
        &&& forall|k: int| 0 <= k < self@.len() ==> (#[trigger] self@[k]).spec_valid()
        &&& sorted_by_start(self@)
        &&& forall|k: int|
            0 <= k < self@.len() - 1 ==> (#[trigger] self@[k]).end_ms <= self@[k + 1].start_ms
    }

    /// Read access to the ordered clips.
    pub fn clips(&self) -> (r: &Vec<Clip>)
        ensures
            r@ == self@,
    {
        &self.clips
    }

    /// Number of clips on the timeline.
    pub fn len(&self) -> (r: usize)
        ensures
            r == self@.len(),
    {
        self.clips.len()
    }

    /// Normalizes an unordered clip set: validates every clip, sorts by
    /// start time keeping ties in input order, and rejects overlap. Returns
    /// the canonical timeline, or exactly the error `validate_spec` names.
    pub fn new(clips: &Vec<Clip>) -> (r: Result<Timeline, ExportError>)
        ensures
            match r {
                Ok(t) => validate_spec(clips@) is None && t@ == sort_clips(clips@) && t.wf(),
                Err(e) => validate_spec(clips@) == Some(e),
            },
    {
        if clips.len() == 0 {
            return Err(ExportError::EmptyTimeline);
        }
        if let Some(idx) = first_invalid_exec(clips) {
            return Err(ExportError::InvalidClip { index: idx });
        }

        let sorted = sort_clips_exec(clips);
        proof {
            lemma_sort_clips_sorted(clips@);
            lemma_sort_clips_contains(clips@);
        }
        if let Some(k) = first_overlap_exec(&sorted) {
            return Err(
                ExportError::Overlap {
                    first_id: sorted[k].id.clone(),
                    second_id: sorted[k + 1].id.clone(),
                },
            );
        }
        proof {
            lemma_first_overlap_spec(sorted@);
            lemma_first_invalid_spec(clips@);
            assert forall|m: int| 0 <= m < sorted@.len() implies (
            #[trigger] sorted@[m]).spec_valid() by {
                assert(clips@.contains(sorted@[m]));
                let w = choose|w: int| 0 <= w < clips@.len() && clips@[w] == sorted@[m];
                assert(clips@[w].spec_valid());
            }
        }
        Ok(Timeline { clips: sorted })
    }
}

/// Index of the first clip, in input order, that breaks its invariants.
#[verifier::loop_isolation(false)]
fn first_invalid_exec(clips: &Vec<Clip>) -> (r: Option<usize>)
    ensures
        match r {
            Some(idx) => first_invalid(clips@) == Some(idx as int),
            None => first_invalid(clips@) is None,
        },
{
    proof {
        lemma_first_invalid_spec(clips@);
    }
    let mut idx: usize = 0;
    while idx < clips.len()
        invariant
            0 <= idx <= clips@.len(),
            forall|k: int| 0 <= k < idx ==> (#[trigger] clips@[k]).spec_valid(),
        decreases clips@.len() - idx,
    {
        if !clips[idx].is_valid() {
            proof {
                match first_invalid(clips@) {
                    Some(i) => {
                        assert(i == idx) by {
                            if i < idx {
                                assert(clips@[i].spec_valid());
                            }
                        }
                    },
                    None => {
                        assert(clips@[idx as int].spec_valid());
                    },
                }
            }
            return Some(idx);
        }
        idx = idx + 1;
    }
    proof {
        match first_invalid(clips@) {
            Some(i) => {
                assert(clips@[i].spec_valid());
            },
            None => {},
        }
    }
    None
}

/// First position of a sorted clip sequence that overlaps its successor.
#[verifier::loop_isolation(false)]
#[verifier::rlimit(60)]
fn first_overlap_exec(sorted: &Vec<Clip>) -> (r: Option<usize>)
    ensures
        match r {
            Some(k) => first_overlap(sorted@) == Some(k as int) && k + 1 < sorted@.len(),
            None => first_overlap(sorted@) is None,
        },
{
    proof {
        lemma_first_overlap_spec(sorted@);
    }
    if sorted.len() == 0 {
        return None;
    }
    let mut k: usize = 0;
    while k < sorted.len() - 1
        invariant
            0 <= k <= sorted@.len(),
            forall|m: int| 0 <= m < k ==> (#[trigger] sorted@[m]).end_ms <= sorted@[m
                + 1].start_ms,
        decreases sorted@.len() - k,
    {
        if sorted[k].end_ms > sorted[k + 1].start_ms {
            proof {
                match first_overlap(sorted@) {
                    Some(i) => {
                        assert(i == k) by {
                            if i < k {
                                assert(sorted@[i].end_ms <= sorted@[i + 1].start_ms);
                            }
                        }
                    },
                    None => {
                        assert(sorted@[k as int].end_ms <= sorted@[k + 1].start_ms);
                    },
                }
            }
            return Some(k);
        }
        k = k + 1;
    }
    proof {
        match first_overlap(sorted@) {
            Some(i) => {
                assert(sorted@[i].end_ms <= sorted@[i + 1].start_ms);
            },
            None => {},
        }
    }
    None
}

/// Stable insertion sort matching `sort_clips` exactly.
#[verifier::loop_isolation(false)]
fn sort_clips_exec(clips: &Vec<Clip>) -> (r: Vec<Clip>)
    ensures
        r@ == sort_clips(clips@),
{
    let mut out: Vec<Clip> = Vec::new();
    let mut i: usize = 0;
    proof {
        assert(clips@.subrange(0, 0) =~= Seq::<Clip>::empty());
    }
    while i < clips.len()
        invariant
            0 <= i <= clips@.len(),
            out@ == sort_clips(clips@.subrange(0, i as int)),
            out@.len() == i,
            sorted_by_start(out@),
        decreases clips@.len() - i,
    {
        let c = clips[i].clone();
        proof {
            lemma_insert_pos_sorted(out@, c);
        }
        let mut j: usize = out.len();
        while j > 0 && out[j - 1].start_ms > c.start_ms
            invariant
                0 <= j <= out@.len(),
                sorted_by_start(out@),
                insert_pos(out@, c) <= j,
                forall|m: int| j <= m < out@.len() ==> (#[trigger] out@[m]).start_ms > c.start_ms,
            decreases j,
        {
            proof {
                lemma_insert_pos_sorted(out@, c);
                assert(insert_pos(out@, c) <= j - 1) by {
                    if insert_pos(out@, c) == j {
                        assert(out@[j - 1].start_ms <= c.start_ms);
                    }
                }
            }
            j = j - 1;
        }
        proof {
            lemma_insert_pos_sorted(out@, c);
            assert(insert_pos(out@, c) == j) by {
                if insert_pos(out@, c) < j {
                    assert(out@[j - 1].start_ms > c.start_ms);
                    assert(out@[j - 1].start_ms <= c.start_ms);
                }
            }
        }
        let ghost old_out = out@;
        out.insert(j, c);
        proof {
            let prefix = clips@.subrange(0, i as int);
            let next_prefix = clips@.subrange(0, i + 1);
            assert(next_prefix.drop_last() =~= prefix);
            assert(next_prefix.last() == c);
            assert(out@ =~= insert_clip(old_out, c));
            lemma_insert_clip_sorted(old_out, c);
        }
        i = i + 1;
    }
    proof {
        assert(clips@.subrange(0, clips@.len() as int) =~= clips@);
    }
    out
}

} // verus!
