//! Render plan emitter: combines the assembled graph with an output
//! profile into the engine-agnostic recipe handed to an external
//! transcoder. The emitter performs no I/O; it is a pure transformation,
//! and its output is pinned to a specification of the input alone, so two
//! compilations of the same clip set are identical.

use vstd::prelude::*;

use crate::TAIL_PAD_MS;
use crate::AUDIO_SAMPLE_RATE_HZ;
use crate::OUTPUT_FRAME_RATE;
use crate::clip::Clip;
use crate::clip::MAX_TIME_MS;
use crate::error::ExportError;
use crate::graph::RenderGraph;
use crate::graph::assemble_graph;
use crate::graph::frame_ok;
use crate::graph::graph_nodes_spec;
use crate::graph::graph_streams_spec;
use crate::graph::lemma_plan_shape;
use crate::graph::lemma_resolution_invariant;
use crate::planner::plan_segments;
use crate::planner::plan_spec;
use crate::planner::total_duration_spec;
use crate::resolution::Resolution;
use crate::resolution::resolve_resolution;
use crate::resolution::spec_target_height;
use crate::resolution::spec_target_width;
use crate::timeline::Timeline;
use crate::timeline::first_invalid;
use crate::timeline::lemma_first_invalid_spec;
use crate::timeline::lemma_sort_clips_contains;
use crate::timeline::lemma_sort_clips_sorted;
use crate::timeline::sort_clips;
use crate::timeline::validate_spec;

verus! {

/// Constant rate factor of the video encoder: the fixed quality preset.
pub const VIDEO_CRF: u8 = 23;

/// Audio bitrate of the output, in kilobits per second.
pub const AUDIO_BITRATE_KBPS: u32 = 128;

/// Video codec of the output profile.
#[derive(Clone, Copy, Debug, PartialEq, Eq, Structural)]
pub enum VideoCodec {
    H264,
}

/// Audio codec of the output profile.
#[derive(Clone, Copy, Debug, PartialEq, Eq, Structural)]
pub enum AudioCodec {
    Aac,
}

/// Encoder speed/quality preset.
#[derive(Clone, Copy, Debug, PartialEq, Eq, Structural)]
pub enum EncodePreset {
    Fast,
    Medium,
    Slow,
}

/// Target dimensions, frame rate, codec parameters and total duration of
/// one export.
#[derive(Clone, Copy, Debug, PartialEq, Eq, Structural)]
pub struct OutputProfile {
    /// Output width in pixels, always even.
    pub width: u32,
    /// Output height in pixels, always even.
    pub height: u32,
    /// Output frame rate, frames per second.
    pub frame_rate: u32,
    /// Video codec.
    pub video_codec: VideoCodec,
    /// Encoder preset.
    pub preset: EncodePreset,
    /// Constant rate factor of the video encoder.
    pub video_crf: u8,
    /// Audio codec.
    pub audio_codec: AudioCodec,
    /// Audio bitrate in kilobits per second.
    pub audio_bitrate_kbps: u32,
    /// Audio sample rate in hertz.
    pub sample_rate_hz: u32,
    /// Whether the container is laid out for streaming start.
    pub faststart: bool,
    /// Total output duration: the end of the last clip plus the tail pad,
    /// so the final frame survives encoder rounding.
    pub total_duration_ms: u64,
}

/// The full rendering plan: ordered source files, the typed node graph,
/// and the output profile. An external transcoder consumes this as its
/// execution recipe.
#[derive(Debug, PartialEq, Eq)]
pub struct RenderPlan {
    /// Source media paths, in timeline order; graph nodes name them by
    /// position here.
    pub inputs: Vec<String>,
    /// The assembled node graph.
    pub graph: RenderGraph,
    /// The output profile.
    pub profile: OutputProfile,
}

/// The output profile a clip sequence and resolved dimensions determine.
pub open spec fn profile_spec(clips: Seq<Clip>, w: u32, h: u32) -> OutputProfile {
    OutputProfile {
        width: w,
        height: h,
        frame_rate: OUTPUT_FRAME_RATE,
        video_codec: VideoCodec::H264,
        preset: EncodePreset::Medium,
        video_crf: VIDEO_CRF,
        audio_codec: AudioCodec::Aac,
        audio_bitrate_kbps: AUDIO_BITRATE_KBPS,
        sample_rate_hz: AUDIO_SAMPLE_RATE_HZ,
        faststart: true,
        total_duration_ms: (total_duration_spec(clips) + TAIL_PAD_MS) as u64,
    }
}

/// What a successful compilation hands back: every part of the plan equals
/// the one value the specification assigns to this clip set and request.
pub open spec fn plan_matches(plan: RenderPlan, clips: Seq<Clip>, res: Resolution) -> bool {
    let sorted = sort_clips(clips);
    let segs = plan_spec(sorted);
    let w = spec_target_width(res) as u32;
    let h = spec_target_height(res) as u32;
    &&& plan.inputs@ == sorted.map_values(|c: Clip| c.source_path)
    &&& plan.graph.nodes@ == graph_nodes_spec(segs, sorted, w, h)
    &&& plan.graph.concat@ == graph_streams_spec(segs, sorted)
    &&& plan.profile == profile_spec(sorted, w, h)
}

/// The error a compilation reports, if any: timeline validation first,
/// then the degenerate-resolution check.
pub open spec fn compile_error_spec(clips: Seq<Clip>, res: Resolution) -> Option<ExportError> {
    match validate_spec(clips) {
        Some(e) => Some(e),
        None => if spec_target_width(res) < 2 || spec_target_height(res) < 2 {
            Some(ExportError::InvalidResolution)
        } else {
            None
        },
    }
}

/// Compiles an unordered clip set and a resolution request into a
/// rendering plan: validation, stable ordering, gap planning, graph
/// assembly and profile construction, all in one deterministic pass.
pub fn compile(clips: &Vec<Clip>, resolution: &Resolution) -> (r: Result<
    RenderPlan,
    ExportError,
>)
    ensures
        match r {
            Ok(plan) => compile_error_spec(clips@, *resolution) is None && plan_matches(
                plan,
                clips@,
                *resolution,
            ),
            Err(e) => compile_error_spec(clips@, *resolution) == Some(e),
        },
{
    let t = match Timeline::new(clips) {
        Ok(t) => t,
        Err(e) => {
            return Err(e);
        },
    };
    let dims = resolve_resolution(resolution);
    if dims.0 < 2 || dims.1 < 2 {
        return Err(ExportError::InvalidResolution);
    }
    let segments = plan_segments(&t);
    let graph = assemble_graph(&t, &segments.0, dims.0, dims.1);
    proof {
        assert(t@.last().spec_valid());
    }
    let profile = OutputProfile {
        width: dims.0,
        height: dims.1,
        frame_rate: OUTPUT_FRAME_RATE,
        video_codec: VideoCodec::H264,
        preset: EncodePreset::Medium,
        video_crf: VIDEO_CRF,
        audio_codec: AudioCodec::Aac,
        audio_bitrate_kbps: AUDIO_BITRATE_KBPS,
        sample_rate_hz: AUDIO_SAMPLE_RATE_HZ,
        faststart: true,
        total_duration_ms: segments.1 + TAIL_PAD_MS,
    };
    let inputs = source_paths(&t);
    Ok(RenderPlan { inputs, graph, profile })
}

/// The source paths of a timeline, in timeline order.
#[verifier::loop_isolation(false)]
fn source_paths(t: &Timeline) -> (r: Vec<String>)
    ensures
        r@ == t@.map_values(|c: Clip| c.source_path),
{
    let clips = t.clips();
    let mut out: Vec<String> = Vec::new();
    let mut i: usize = 0;
    proof {
        assert(out@ =~= t@.subrange(0, 0).map_values(|c: Clip| c.source_path));
    }
    while i < clips.len()
        invariant
            0 <= i <= t@.len(),
            out@ == t@.subrange(0, i as int).map_values(|c: Clip| c.source_path),
        decreases t@.len() - i,
    {
        out.push(clips[i].source_path.clone());
        proof {
            assert(out@ =~= t@.subrange(0, i + 1).map_values(|c: Clip| c.source_path));
        }
        i = i + 1;
    }
    proof {
        assert(t@.subrange(0, t@.len() as int) =~= t@);
    }
    out
}

/// Resolution invariant at the plan level: whatever the sources' aspect
/// ratios, every frame-producing node of a compiled plan emits exactly
/// the resolved output dimensions, the clip content scaled to fit inside
/// and centered by padding whose margins differ by at most one pixel.
pub proof fn lemma_plan_frames_exact(plan: RenderPlan, clips: Seq<Clip>, res: Resolution)
    requires
        plan_matches(plan, clips, res),
        validate_spec(clips) is None,
        clips.len() <= usize::MAX,
    ensures
        forall|k: int|
            0 <= k < plan.graph.nodes@.len() ==> frame_ok(
                #[trigger] plan.graph.nodes@[k],
                spec_target_width(res) as u32,
                spec_target_height(res) as u32,
            ),
{
    let sorted = sort_clips(clips);
    let segs = plan_spec(sorted);
    let w = spec_target_width(res) as u32;
    let h = spec_target_height(res) as u32;
    lemma_first_invalid_spec(clips);
    lemma_sort_clips_sorted(clips);
    lemma_sort_clips_contains(clips);
    assert(first_invalid(clips) is None);
    assert forall|m: int| 0 <= m < sorted.len() implies (#[trigger] sorted[m]).spec_valid() by {
        assert(clips.contains(sorted[m]));
        let i = choose|i: int| 0 <= i < clips.len() && clips[i] == sorted[m];
        assert(clips[i].spec_valid());
    }
    lemma_plan_shape(sorted, 0, 0);
    lemma_resolution_invariant(segs, sorted, w, h, segs.len() as int);
}

/// Determinism: two plans that both satisfy the compilation contract for
/// the same clip set and resolution request are identical in every part:
/// same inputs, same nodes, same concatenation order, same profile.
pub proof fn lemma_compile_deterministic(
    clips: Seq<Clip>,
    res: Resolution,
    p1: RenderPlan,
    p2: RenderPlan,
)
    requires
        plan_matches(p1, clips, res),
        plan_matches(p2, clips, res),
    ensures
        p1.inputs@ == p2.inputs@,
        p1.graph.nodes@ == p2.graph.nodes@,
        p1.graph.concat@ == p2.graph.concat@,
        p1.profile == p2.profile,
{
}

} // verus!
