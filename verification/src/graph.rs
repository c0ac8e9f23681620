//! Render graph assembler: expands each planned segment into typed graph
//! nodes and wires every segment's video and audio stream, in segment
//! order, into one concatenation.
//!
//! Nodes are identified by their position in the node list; a node that
//! consumes another names it by that position, so the list plus those
//! references form the directed acyclic graph. The concatenation consumes
//! one video/audio pair per segment, keeping the two in lockstep so the
//! output can never drift apart.

use vstd::prelude::*;

use crate::AUDIO_SAMPLE_RATE_HZ;
use crate::OUTPUT_FRAME_RATE;
use crate::clip::Clip;
use crate::planner::Segment;
use crate::planner::plan_from;
use crate::planner::plan_spec;
use crate::resolution::lemma_fit_inside;
use crate::resolution::spec_center_offset;
use crate::resolution::spec_fit_height;
use crate::resolution::spec_fit_width;
use crate::resolution::center_offset;
use crate::resolution::fit_dimensions;
use crate::timeline::Timeline;

verus! {

/// One typed operation of the render graph. `src` fields name the node
/// whose output is consumed, by position in the node list; `input` fields
/// name a source media file, by position on the timeline.
#[derive(Clone, Copy, Debug, PartialEq, Eq, Structural)]
pub enum Node {
    /// The video stream of source media `input`.
    VideoSource { input: usize },
    /// The audio stream of source media `input`.
    AudioSource { input: usize },
    /// Keeps only `[start_ms, start_ms + duration_ms)` of source video time.
    TrimVideo { src: usize, start_ms: u64, duration_ms: u64 },
    /// Keeps only `[start_ms, start_ms + duration_ms)` of source audio time.
    TrimAudio { src: usize, start_ms: u64, duration_ms: u64 },
    /// Shifts video timestamps so the trimmed stream starts at zero.
    ResetVideoPts { src: usize },
    /// Shifts audio timestamps so the trimmed stream starts at zero.
    ResetAudioPts { src: usize },
    /// Scales the video to `scaled_width` x `scaled_height` and centers it
    /// on a black `width` x `height` canvas, `pad_left` pixels from the
    /// left edge and `pad_top` from the top.
    ScalePad {
        src: usize,
        scaled_width: u32,
        scaled_height: u32,
        pad_left: u32,
        pad_top: u32,
        width: u32,
        height: u32,
    },
    /// Generates solid black video of the given size and duration.
    BlackVideo { width: u32, height: u32, duration_ms: u64, frame_rate: u32 },
    /// Generates silence of the given duration.
    SilentAudio { duration_ms: u64, sample_rate_hz: u32 },
}

/// The finished video and audio stream of one segment, by node position:
/// one such pair per segment enters the concatenation.
#[derive(Clone, Copy, Debug, PartialEq, Eq, Structural)]
pub struct SegmentStreams {
    /// Node producing the segment's video.
    pub video: usize,
    /// Node producing the segment's audio.
    pub audio: usize,
}

/// The assembled graph: the node list and the ordered video/audio pairs
/// that the terminal concatenation consumes.
#[derive(Debug, PartialEq, Eq)]
pub struct RenderGraph {
    /// All nodes; positions in this list are the node identifiers.
    pub nodes: Vec<Node>,
    /// One entry per segment, in output order.
    pub concat: Vec<SegmentStreams>,
}

/// How many nodes a segment expands to: a gap needs its two generators; a
/// clip needs four video nodes plus three audio nodes, or a single silence
/// generator when the source has no audio stream.
pub open spec fn seg_node_count(seg: Segment, clips: Seq<Clip>) -> int {
    match seg {
        Segment::Gap { .. } => 2,
        Segment::Clip { index, .. } => if clips[index as int].meta.has_audio {
            7
        } else {
            5
        },
    }
}

/// The two generator nodes of a gap segment.
pub open spec fn gap_nodes(duration_ms: u64, w: u32, h: u32) -> Seq<Node> {
    seq![
        Node::BlackVideo { width: w, height: h, duration_ms, frame_rate: OUTPUT_FRAME_RATE },
        Node::SilentAudio { duration_ms, sample_rate_hz: AUDIO_SAMPLE_RATE_HZ },
    ]
}

/// The node chain of one clip segment, when the node list already holds
/// `base` nodes: select, trim, reset timestamps and scale-pad for video,
/// and either the same trim chain for audio or a silence generator when
/// the source has none.
pub open spec fn clip_nodes(
    c: Clip,
    index: usize,
    trim_in_ms: u64,
    duration_ms: u64,
    w: u32,
    h: u32,
    base: int,
) -> Seq<Node> {
    let sw = spec_fit_width(c.meta.width as int, c.meta.height as int, w as int, h as int);
    let sh = spec_fit_height(c.meta.width as int, c.meta.height as int, w as int, h as int);
    let video = seq![
        Node::VideoSource { input: index },
        Node::TrimVideo { src: base as usize, start_ms: trim_in_ms, duration_ms },
        Node::ResetVideoPts { src: (base + 1) as usize },
        Node::ScalePad {
            src: (base + 2) as usize,
            scaled_width: sw as u32,
            scaled_height: sh as u32,
            pad_left: spec_center_offset(sw, w as int) as u32,
            pad_top: spec_center_offset(sh, h as int) as u32,
            width: w,
            height: h,
        },
    ];
    if c.meta.has_audio {
        video + seq![
            Node::AudioSource { input: index },
            Node::TrimAudio { src: (base + 4) as usize, start_ms: trim_in_ms, duration_ms },
            Node::ResetAudioPts { src: (base + 5) as usize },
        ]
    } else {
        video + seq![Node::SilentAudio { duration_ms, sample_rate_hz: AUDIO_SAMPLE_RATE_HZ }]
    }
}

/// The nodes one segment expands to, when the node list already holds
/// `base` nodes.
pub open spec fn seg_nodes(seg: Segment, clips: Seq<Clip>, w: u32, h: u32, base: int) -> Seq<
    Node,
> {
    match seg {
        Segment::Gap { duration_ms } => gap_nodes(duration_ms, w, h),
        Segment::Clip { index, trim_in_ms, duration_ms } => clip_nodes(
            clips[index as int],
            index,
            trim_in_ms,
            duration_ms,
            w,
            h,
            base,
        ),
    }
}

/// The streams of one segment, when its nodes start at position `base`.
pub open spec fn seg_streams(seg: Segment, clips: Seq<Clip>, base: int) -> SegmentStreams {
    match seg {
        Segment::Gap { .. } => SegmentStreams {
            video: base as usize,
            audio: (base + 1) as usize,
        },
        Segment::Clip { index, .. } => if clips[index as int].meta.has_audio {
            SegmentStreams { video: (base + 3) as usize, audio: (base + 6) as usize }
        } else {
            SegmentStreams { video: (base + 3) as usize, audio: (base + 4) as usize }
        },
    }
}

/// Number of nodes the first `n` segments expand to.
pub open spec fn count_upto(segs: Seq<Segment>, clips: Seq<Clip>, n: int) -> int
    decreases n,
{
    if n <= 0 {
        0
    } else {
        count_upto(segs, clips, n - 1) + seg_node_count(segs[n - 1], clips)
    }
}

/// The node list the first `n` segments expand to.
pub open spec fn nodes_upto(segs: Seq<Segment>, clips: Seq<Clip>, w: u32, h: u32, n: int) -> Seq<
    Node,
>
    decreases n,
{
    if n <= 0 {
        Seq::<Node>::empty()
    } else {
        nodes_upto(segs, clips, w, h, n - 1) + seg_nodes(
            segs[n - 1],
            clips,
            w,
            h,
            count_upto(segs, clips, n - 1),
        )
    }
}

/// The concatenation inputs of the first `n` segments.
pub open spec fn streams_upto(segs: Seq<Segment>, clips: Seq<Clip>, n: int) -> Seq<SegmentStreams>
    decreases n,
{
    if n <= 0 {
        Seq::<SegmentStreams>::empty()
    } else {
        streams_upto(segs, clips, n - 1).push(
            seg_streams(segs[n - 1], clips, count_upto(segs, clips, n - 1)),
        )
    }
}

/// The full node list of a planned segment sequence.
pub open spec fn graph_nodes_spec(segs: Seq<Segment>, clips: Seq<Clip>, w: u32, h: u32) -> Seq<
    Node,
> {
    nodes_upto(segs, clips, w, h, segs.len() as int)
}

/// The full concatenation order of a planned segment sequence.
pub open spec fn graph_streams_spec(segs: Seq<Segment>, clips: Seq<Clip>) -> Seq<SegmentStreams> {
    streams_upto(segs, clips, segs.len() as int)
}

/// A segment is well-formed for a clip sequence when any clip it names
/// exists there and it carries exactly that clip's trim window.
pub open spec fn seg_shape_ok(seg: Segment, clips: Seq<Clip>) -> bool {
    match seg {
        Segment::Clip { index, trim_in_ms, duration_ms } => {
            &&& 0 <= index < clips.len()
            &&& trim_in_ms == clips[index as int].trim_in_ms
            &&& duration_ms == clips[index as int].end_ms - clips[index as int].start_ms
        },
        Segment::Gap { .. } => true,
    }
}

/// Every clip segment of a plan points into the clip sequence, and carries
/// that clip's trim window.
pub proof fn lemma_plan_shape(clips: Seq<Clip>, i: int, cursor: int)
    requires
        0 <= i,
        clips.len() <= usize::MAX,
        forall|k: int| 0 <= k < clips.len() ==> (#[trigger] clips[k]).spec_valid(),
    ensures
        forall|k: int|
            0 <= k < plan_from(clips, i, cursor).len() ==> seg_shape_ok(
                #[trigger] plan_from(clips, i, cursor)[k],
                clips,
            ),
    decreases clips.len() - i,
{
    if 0 <= i < clips.len() {
        lemma_plan_shape(clips, i + 1, clips[i].end_ms as int);
        let whole = plan_from(clips, i, cursor);
        let rest = plan_from(clips, i + 1, clips[i].end_ms as int);
        assert forall|k: int| 0 <= k < whole.len() implies seg_shape_ok(
            #[trigger] whole[k],
            clips,
        ) by {
            let lead = whole.len() - rest.len();
            if k >= lead {
                assert(whole[k] == rest[k - lead]);
            }
        }
    }
}

/// What every frame-producing node must satisfy for output dimensions
/// `w` x `h`: a scale-pad node emits exactly the target frame, the scaled
/// content fits inside it, and the padding centers the content with
/// margins that differ by at most one pixel on each axis; a gap generator
/// emits exactly the target frame as well.
pub open spec fn frame_ok(node: Node, w: u32, h: u32) -> bool {
    match node {
        Node::ScalePad { scaled_width, scaled_height, pad_left, pad_top, width, height, .. } => {
            &&& width == w
            &&& height == h
            &&& scaled_width <= w
            &&& scaled_height <= h
            &&& pad_left == spec_center_offset(scaled_width as int, w as int)
            &&& pad_top == spec_center_offset(scaled_height as int, h as int)
            &&& pad_left <= w - scaled_width - pad_left
            &&& (w - scaled_width - pad_left) - pad_left <= 1
            &&& pad_top <= h - scaled_height - pad_top
            &&& (h - scaled_height - pad_top) - pad_top <= 1
        },
        Node::BlackVideo { width, height, .. } => width == w && height == h,
        _ => true,
    }
}

/// Resolution invariant: every node of the assembled graph that produces
/// video frames produces them at exactly the requested dimensions, with
/// the clip content scaled to fit inside and centered by symmetric
/// padding. Concatenating the segments therefore never changes the frame
/// size mid-stream, whatever the sources' aspect ratios.
pub proof fn lemma_resolution_invariant(
    segs: Seq<Segment>,
    clips: Seq<Clip>,
    w: u32,
    h: u32,
    n: int,
)
    requires
        0 <= n <= segs.len(),
        forall|k: int| 0 <= k < clips.len() ==> (#[trigger] clips[k]).spec_valid(),
        forall|k: int| 0 <= k < segs.len() ==> seg_shape_ok(#[trigger] segs[k], clips),
    ensures
        forall|k: int|
            0 <= k < nodes_upto(segs, clips, w, h, n).len() ==> frame_ok(
                #[trigger] nodes_upto(segs, clips, w, h, n)[k],
                w,
                h,
            ),
    decreases n,
{
    if n > 0 {
        lemma_resolution_invariant(segs, clips, w, h, n - 1);
        let prev = nodes_upto(segs, clips, w, h, n - 1);
        let added = seg_nodes(segs[n - 1], clips, w, h, count_upto(segs, clips, n - 1));
        let whole = nodes_upto(segs, clips, w, h, n);
        assert forall|k: int| 0 <= k < added.len() implies frame_ok(
            #[trigger] added[k],
            w,
            h,
        ) by {
            match segs[n - 1] {
                Segment::Gap { .. } => {},
                Segment::Clip { index, .. } => {
                    let c = clips[index as int];
                    lemma_fit_inside(
                        c.meta.width as int,
                        c.meta.height as int,
                        w as int,
                        h as int,
                    );
                },
            }
        }
        assert forall|k: int| 0 <= k < whole.len() implies frame_ok(
            #[trigger] whole[k],
            w,
            h,
        ) by {
            if k < prev.len() {
                assert(whole[k] == prev[k]);
            } else {
                assert(whole[k] == added[k - prev.len()]);
            }
        }
    }
}

/// A node at position `k` only consumes nodes at earlier positions.
pub open spec fn node_src_ok(node: Node, k: int) -> bool {
    match node {
        Node::TrimVideo { src, .. } => src < k,
        Node::TrimAudio { src, .. } => src < k,
        Node::ResetVideoPts { src } => src < k,
        Node::ResetAudioPts { src } => src < k,
        Node::ScalePad { src, .. } => src < k,
        _ => true,
    }
}

/// The assembled graph is acyclic: every node consumes only nodes that
/// stand before it in the list, and every concatenation input exists.
pub proof fn lemma_graph_acyclic(
    segs: Seq<Segment>,
    clips: Seq<Clip>,
    w: u32,
    h: u32,
    n: int,
)
    requires
        0 <= n <= segs.len(),
        7 * segs.len() <= usize::MAX,
    ensures
        forall|k: int|
            0 <= k < nodes_upto(segs, clips, w, h, n).len() ==> node_src_ok(
                #[trigger] nodes_upto(segs, clips, w, h, n)[k],
                k,
            ),
        forall|m: int|
            0 <= m < streams_upto(segs, clips, n).len() ==> (#[trigger] streams_upto(
                segs,
                clips,
                n,
            )[m]).video < nodes_upto(segs, clips, w, h, n).len() && streams_upto(
                segs,
                clips,
                n,
            )[m].audio < nodes_upto(segs, clips, w, h, n).len(),
    decreases n,
{
    if n > 0 {
        lemma_graph_acyclic(segs, clips, w, h, n - 1);
        let prev = nodes_upto(segs, clips, w, h, n - 1);
        let base = count_upto(segs, clips, n - 1);
        let added = seg_nodes(segs[n - 1], clips, w, h, base);
        let whole = nodes_upto(segs, clips, w, h, n);
        lemma_counts_match(segs, clips, w, h, n - 1);
        assert forall|k: int| 0 <= k < whole.len() implies node_src_ok(
            #[trigger] whole[k],
            k,
        ) by {
            if k < prev.len() {
                assert(whole[k] == prev[k]);
            } else {
                assert(whole[k] == added[k - prev.len()]);
            }
        }
        assert forall|m: int| 0 <= m < streams_upto(segs, clips, n).len() implies (
        #[trigger] streams_upto(segs, clips, n)[m]).video < whole.len() && streams_upto(
            segs,
            clips,
            n,
        )[m].audio < whole.len() by {
            if m < n - 1 {
                assert(streams_upto(segs, clips, n)[m] == streams_upto(segs, clips, n - 1)[m]);
                assert(whole.len() >= prev.len());
            } else {
                assert(streams_upto(segs, clips, n)[m] == seg_streams(segs[n - 1], clips, base));
            }
        }
    }
}

/// The node list of the first `n` segments is exactly as long as their
/// node count says, which grows by at most seven nodes per segment.
proof fn lemma_counts_match(segs: Seq<Segment>, clips: Seq<Clip>, w: u32, h: u32, n: int)
    requires
        0 <= n <= segs.len(),
    ensures
        nodes_upto(segs, clips, w, h, n).len() == count_upto(segs, clips, n),
        0 <= count_upto(segs, clips, n) <= 7 * n,
        streams_upto(segs, clips, n).len() == n,
    decreases n,
{
    if n > 0 {
        lemma_counts_match(segs, clips, w, h, n - 1);
    }
}

/// Appends the two generator nodes of a gap segment and returns their
/// positions as the segment's streams.
fn push_gap(nodes: &mut Vec<Node>, duration_ms: u64, width: u32, height: u32) -> (s:
    SegmentStreams)
    ensures
        final(nodes)@ == old(nodes)@ + gap_nodes(duration_ms, width, height),
        s.video == old(nodes)@.len(),
        s.audio == old(nodes)@.len() + 1,
{
    nodes.push(
        Node::BlackVideo { width, height, duration_ms, frame_rate: OUTPUT_FRAME_RATE },
    );
    nodes.push(Node::SilentAudio { duration_ms, sample_rate_hz: AUDIO_SAMPLE_RATE_HZ });
    let s = SegmentStreams { video: nodes.len() - 2, audio: nodes.len() - 1 };
    proof {
        assert(nodes@ =~= old(nodes)@ + gap_nodes(duration_ms, width, height));
    }
    s
}

/// Appends the node chain of one clip segment and returns the positions of
/// its finished video and audio streams.
#[verifier::rlimit(60)]
fn push_clip(
    nodes: &mut Vec<Node>,
    c: &Clip,
    index: usize,
    trim_in_ms: u64,
    duration_ms: u64,
    width: u32,
    height: u32,
) -> (s: SegmentStreams)
    requires
        c.spec_valid(),
    ensures
        final(nodes)@ == old(nodes)@ + clip_nodes(
            *c,
            index,
            trim_in_ms,
            duration_ms,
            width,
            height,
            old(nodes)@.len() as int,
        ),
        s.video == old(nodes)@.len() + 3,
        c.meta.has_audio ==> s.audio == old(nodes)@.len() + 6,
        !c.meta.has_audio ==> s.audio == old(nodes)@.len() + 4,
{
    proof {
        lemma_fit_inside(c.meta.width as int, c.meta.height as int, width as int, height as int);
    }
    let scaled = fit_dimensions(c.meta.width, c.meta.height, width, height);
    let pad_left = center_offset(scaled.0, width);
    let pad_top = center_offset(scaled.1, height);
    nodes.push(Node::VideoSource { input: index });
    let trim_src = nodes.len() - 1;
    nodes.push(Node::TrimVideo { src: trim_src, start_ms: trim_in_ms, duration_ms });
    let reset_src = nodes.len() - 1;
    nodes.push(Node::ResetVideoPts { src: reset_src });
    let scale_src = nodes.len() - 1;
    nodes.push(
        Node::ScalePad {
            src: scale_src,
            scaled_width: scaled.0,
            scaled_height: scaled.1,
            pad_left,
            pad_top,
            width,
            height,
        },
    );
    let video_out = nodes.len() - 1;
    if c.meta.has_audio {
        nodes.push(Node::AudioSource { input: index });
        let atrim_src = nodes.len() - 1;
        nodes.push(Node::TrimAudio { src: atrim_src, start_ms: trim_in_ms, duration_ms });
        let areset_src = nodes.len() - 1;
        nodes.push(Node::ResetAudioPts { src: areset_src });
        let s = SegmentStreams { video: video_out, audio: nodes.len() - 1 };
        proof {
            assert(nodes@ =~= old(nodes)@ + clip_nodes(
                *c,
                index,
                trim_in_ms,
                duration_ms,
                width,
                height,
                old(nodes)@.len() as int,
            ));
        }
        s
    } else {
        nodes.push(Node::SilentAudio { duration_ms, sample_rate_hz: AUDIO_SAMPLE_RATE_HZ });
        let s = SegmentStreams { video: video_out, audio: nodes.len() - 1 };
        proof {
            assert(nodes@ =~= old(nodes)@ + clip_nodes(
                *c,
                index,
                trim_in_ms,
                duration_ms,
                width,
                height,
                old(nodes)@.len() as int,
            ));
        }
        s
    }
}

/// Expands the planned segments of a validated timeline into the render
/// graph, exactly as the assembly specification describes.
#[verifier::loop_isolation(false)]
#[verifier::rlimit(100)]
#[verifier::spinoff_prover]
pub fn assemble_graph(t: &Timeline, segs: &Vec<Segment>, width: u32, height: u32) -> (g:
    RenderGraph)
    requires
        t.wf(),
        segs@ == plan_spec(t@),
    ensures
        g.nodes@ == graph_nodes_spec(segs@, t@, width, height),
        g.concat@ == graph_streams_spec(segs@, t@),
        g.nodes@.len() == count_upto(segs@, t@, segs@.len() as int),
        g.concat@.len() == segs@.len(),
{
    let clips = t.clips();
    proof {
        assert(t@.len() <= usize::MAX) by {
            assert(clips@.len() == clips.len());
        }
        lemma_plan_shape(t@, 0, 0);
    }
    let mut nodes: Vec<Node> = Vec::new();
    let mut concat: Vec<SegmentStreams> = Vec::new();
    let mut i: usize = 0;
    while i < segs.len()
        invariant
            0 <= i <= segs@.len(),
            nodes@ == nodes_upto(segs@, t@, width, height, i as int),
            concat@ == streams_upto(segs@, t@, i as int),
            nodes@.len() == count_upto(segs@, t@, i as int),
            concat@.len() == i,
        decreases segs@.len() - i,
    {
        let ghost base = nodes@.len() as int;
        let streams;
        match segs[i] {
            Segment::Gap { duration_ms } => {
                streams = push_gap(&mut nodes, duration_ms, width, height);
            },
            Segment::Clip { index, trim_in_ms, duration_ms } => {
                let c = &clips[index];
                streams = push_clip(&mut nodes, c, index, trim_in_ms, duration_ms, width, height);
            },
        }
        concat.push(streams);
        proof {
            assert(nodes@ == nodes_upto(segs@, t@, width, height, i + 1));
            assert(concat@ =~= streams_upto(segs@, t@, i + 1));
        }
        i = i + 1;
    }
    RenderGraph { nodes, concat }
}

} // verus!
