//! End-to-end tests of the timeline compositing engine: validation,
//! ordering, gap planning, graph assembly and the emitted plan.

use clipforge::clip::trim_window_ms;
use clipforge::graph::Node;
use clipforge::planner::Segment;
use clipforge::planner::plan_segments;
use clipforge::resolution::fit_dimensions;
use clipforge::resolution::resolve_resolution;
use clipforge::Clip;
use clipforge::ClipMeta;
use clipforge::ExportError;
use clipforge::Resolution;
use clipforge::Timeline;
use clipforge::compile;

fn meta(duration_ms: u64, width: u32, height: u32, has_audio: bool) -> ClipMeta {
    ClipMeta {
        duration_ms,
        width,
        height,
        fps_num: 30,
        fps_den: 1,
        has_audio,
    }
}

fn clip(id: &str, start_ms: u64, end_ms: u64, trim_in_ms: u64, trim_out_ms: u64) -> Clip {
    Clip {
        id: id.to_string(),
        source_path: format!("/media/{id}.mp4"),
        meta: meta(600_000, 1920, 1080, true),
        start_ms,
        end_ms,
        trim_in_ms,
        trim_out_ms,
    }
}

#[test]
fn gap_correctness() {
    // Clip A covers [0s, 2s), clip B covers [5s, 7s): the plan is
    // clip, three-second gap, clip.
    let clips = vec![clip("a", 0, 2000, 0, 2000), clip("b", 5000, 7000, 0, 2000)];
    let t = Timeline::new(&clips).unwrap();
    let (segments, total) = plan_segments(&t);
    assert_eq!(
        segments,
        vec![
            Segment::Clip { index: 0, trim_in_ms: 0, duration_ms: 2000 },
            Segment::Gap { duration_ms: 3000 },
            Segment::Clip { index: 1, trim_in_ms: 0, duration_ms: 2000 },
        ]
    );
    assert_eq!(total, 7000);
}

#[test]
fn single_clip_round_trip() {
    // One clip [0, d) with its full trim window: total duration d and no
    // gap segments.
    let d = 4321;
    let clips = vec![clip("only", 0, d, 0, d)];
    let t = Timeline::new(&clips).unwrap();
    let (segments, total) = plan_segments(&t);
    assert_eq!(segments.len(), 1);
    assert!(matches!(segments[0], Segment::Clip { .. }));
    assert_eq!(total, d);

    let plan = compile(&clips, &Resolution::FullHd1080).unwrap();
    assert_eq!(plan.profile.total_duration_ms, d + clipforge::TAIL_PAD_MS);
    assert_eq!(plan.graph.concat.len(), 1);
}

#[test]
fn overlap_rejection() {
    // Clip A [0s, 5s) and clip B [3s, 7s) overlap: the normalizer names
    // both, and no plan is produced.
    let clips = vec![clip("a", 0, 5000, 0, 5000), clip("b", 3000, 7000, 0, 4000)];
    match Timeline::new(&clips) {
        Err(ExportError::Overlap { first_id, second_id }) => {
            assert_eq!(first_id, "a");
            assert_eq!(second_id, "b");
        }
        other => panic!("expected an overlap error, got {other:?}"),
    }
    assert!(matches!(
        compile(&clips, &Resolution::FullHd1080),
        Err(ExportError::Overlap { .. })
    ));
}

#[test]
fn ordering_stability() {
    // Clips supplied out of order produce the same plan as in sorted
    // order.
    let in_order = vec![clip("a", 0, 2000, 0, 2000), clip("b", 5000, 7000, 0, 2000)];
    let reversed = vec![clip("b", 5000, 7000, 0, 2000), clip("a", 0, 2000, 0, 2000)];
    let p1 = compile(&in_order, &Resolution::Hd720).unwrap();
    let p2 = compile(&reversed, &Resolution::Hd720).unwrap();
    assert_eq!(p1, p2);
    assert_eq!(p1.inputs, vec!["/media/a.mp4", "/media/b.mp4"]);
}

#[test]
fn determinism() {
    // Two compilations of the same clip set yield identical plans.
    let clips = vec![
        clip("x", 1000, 3000, 500, 2500),
        clip("y", 4000, 6000, 0, 2000),
        clip("z", 6000, 6500, 100, 600),
    ];
    let p1 = compile(&clips, &Resolution::FullHd1080).unwrap();
    let p2 = compile(&clips, &Resolution::FullHd1080).unwrap();
    assert_eq!(p1, p2);
}

#[test]
fn duration_conservation() {
    // Segment durations sum to the total, which is the largest end time.
    let clips = vec![
        clip("x", 1000, 3000, 0, 2000),
        clip("y", 4500, 6000, 0, 1500),
        clip("z", 9000, 9500, 0, 500),
    ];
    let t = Timeline::new(&clips).unwrap();
    let (segments, total) = plan_segments(&t);
    let sum: u64 = segments
        .iter()
        .map(|s| match s {
            Segment::Clip { duration_ms, .. } => *duration_ms,
            Segment::Gap { duration_ms } => *duration_ms,
        })
        .sum();
    assert_eq!(sum, total);
    assert_eq!(total, 9500);
}

#[test]
fn empty_timeline_rejected() {
    let clips: Vec<Clip> = Vec::new();
    assert!(matches!(
        compile(&clips, &Resolution::FullHd1080),
        Err(ExportError::EmptyTimeline)
    ));
    assert_eq!(
        ExportError::EmptyTimeline.message(),
        "no clips to export"
    );
}

#[test]
fn invalid_clip_rejected() {
    // Trim window past the end of the source.
    let mut bad = clip("bad", 0, 2000, 599_000, 601_000);
    bad.trim_out_ms = 601_000;
    let clips = vec![clip("ok", 3000, 4000, 0, 1000), bad];
    assert_eq!(
        compile(&clips, &Resolution::FullHd1080),
        Err(ExportError::InvalidClip { index: 1 })
    );
}

#[test]
fn trim_placement_mismatch_rejected() {
    // Placement lasts two seconds but the trim window selects one: the
    // engine rejects the clip instead of desynchronizing the timeline.
    let clips = vec![clip("skewed", 0, 2000, 0, 1000)];
    assert_eq!(
        compile(&clips, &Resolution::FullHd1080),
        Err(ExportError::InvalidClip { index: 0 })
    );
}

#[test]
fn resolution_invariant() {
    // A 4:3 source in a 16:9 frame: scaled to fit the height, centered
    // with symmetric pillarbox padding, output exactly the target size.
    let mut narrow = clip("narrow", 0, 1000, 0, 1000);
    narrow.meta = meta(600_000, 640, 480, true);
    let clips = vec![narrow];
    let plan = compile(&clips, &Resolution::Hd720).unwrap();
    let scale_pads: Vec<&Node> = plan
        .graph
        .nodes
        .iter()
        .filter(|n| matches!(n, Node::ScalePad { .. }))
        .collect();
    assert_eq!(scale_pads.len(), 1);
    match scale_pads[0] {
        Node::ScalePad {
            scaled_width,
            scaled_height,
            pad_left,
            pad_top,
            width,
            height,
            ..
        } => {
            assert_eq!((*width, *height), (1280, 720));
            assert_eq!((*scaled_width, *scaled_height), (960, 720));
            assert_eq!((*pad_left, *pad_top), (160, 0));
            // Symmetric: the right margin equals the left margin.
            assert_eq!(width - scaled_width - pad_left, *pad_left);
        }
        _ => unreachable!(),
    }
}

#[test]
fn graph_structure_single_clip_with_audio() {
    let clips = vec![clip("av", 0, 1000, 200, 1200)];
    let plan = compile(&clips, &Resolution::FullHd1080).unwrap();
    let n = &plan.graph.nodes;
    assert_eq!(n.len(), 7);
    assert_eq!(n[0], Node::VideoSource { input: 0 });
    assert_eq!(n[1], Node::TrimVideo { src: 0, start_ms: 200, duration_ms: 1000 });
    assert_eq!(n[2], Node::ResetVideoPts { src: 1 });
    assert!(matches!(n[3], Node::ScalePad { src: 2, .. }));
    assert_eq!(n[4], Node::AudioSource { input: 0 });
    assert_eq!(n[5], Node::TrimAudio { src: 4, start_ms: 200, duration_ms: 1000 });
    assert_eq!(n[6], Node::ResetAudioPts { src: 5 });
    assert_eq!(plan.graph.concat.len(), 1);
    assert_eq!(plan.graph.concat[0].video, 3);
    assert_eq!(plan.graph.concat[0].audio, 6);
}

#[test]
fn graph_structure_silent_source_and_gap() {
    // A clip without audio gets a silence generator; the gap before it
    // gets black video and silence at the target size.
    let mut mute = clip("mute", 2000, 3000, 0, 1000);
    mute.meta = meta(600_000, 1920, 1080, false);
    let clips = vec![mute];
    let plan = compile(&clips, &Resolution::FullHd1080).unwrap();
    let n = &plan.graph.nodes;
    assert_eq!(n.len(), 2 + 5);
    assert_eq!(
        n[0],
        Node::BlackVideo {
            width: 1920,
            height: 1080,
            duration_ms: 2000,
            frame_rate: clipforge::OUTPUT_FRAME_RATE
        }
    );
    assert_eq!(
        n[1],
        Node::SilentAudio {
            duration_ms: 2000,
            sample_rate_hz: clipforge::AUDIO_SAMPLE_RATE_HZ
        }
    );
    assert!(matches!(n[6], Node::SilentAudio { duration_ms: 1000, .. }));
    assert_eq!(plan.graph.concat.len(), 2);
    assert_eq!((plan.graph.concat[0].video, plan.graph.concat[0].audio), (0, 1));
    assert_eq!((plan.graph.concat[1].video, plan.graph.concat[1].audio), (5, 6));
}

#[test]
fn custom_resolution_rounds_down_to_even() {
    let clips = vec![clip("c", 0, 1000, 0, 1000)];
    let plan = compile(
        &clips,
        &Resolution::Custom { width: 1281, height: 721 },
    )
    .unwrap();
    assert_eq!((plan.profile.width, plan.profile.height), (1280, 720));
}

#[test]
fn degenerate_resolution_rejected() {
    let clips = vec![clip("c", 0, 1000, 0, 1000)];
    assert_eq!(
        compile(&clips, &Resolution::Custom { width: 1, height: 500 }),
        Err(ExportError::InvalidResolution)
    );
}

#[test]
fn resolution_presets() {
    assert_eq!(resolve_resolution(&Resolution::Hd720), (1280, 720));
    assert_eq!(resolve_resolution(&Resolution::FullHd1080), (1920, 1080));
    assert_eq!(
        resolve_resolution(&Resolution::Custom { width: 640, height: 481 }),
        (640, 480)
    );
}

#[test]
fn fit_dimensions_cases() {
    // Wider than the target: fit the width, letterbox the height.
    assert_eq!(fit_dimensions(2560, 1080, 1920, 1080), (1920, 810));
    // Narrower than the target: fit the height, pillarbox the width.
    assert_eq!(fit_dimensions(640, 480, 1280, 720), (960, 720));
    // Same aspect ratio: exactly the target.
    assert_eq!(fit_dimensions(960, 540, 1920, 1080), (1920, 1080));
}

#[test]
fn zero_length_clip_allowed() {
    // A zero-length placement with an empty trim window is valid and
    // contributes a zero-length segment.
    let clips = vec![clip("dot", 1000, 1000, 0, 0), clip("b", 1000, 2000, 0, 1000)];
    let t = Timeline::new(&clips).unwrap();
    let (segments, total) = plan_segments(&t);
    assert_eq!(segments.len(), 3);
    assert_eq!(total, 2000);
}

#[test]
fn equal_start_ties_keep_input_order() {
    // A zero-length clip may share a start with its successor; the tie
    // keeps input order.
    let clips = vec![clip("dot", 1000, 1000, 0, 0), clip("b", 1000, 2000, 0, 1000)];
    let t = Timeline::new(&clips).unwrap();
    assert_eq!(t.clips()[0].id, "dot");
    assert_eq!(t.clips()[1].id, "b");
}

#[test]
fn overlap_message_names_both_clips() {
    let e = ExportError::Overlap {
        first_id: "left".to_string(),
        second_id: "right".to_string(),
    };
    assert_eq!(e.message(), "clips overlap on the timeline: left and right");
}

#[test]
fn trim_window_helper() {
    assert_eq!(trim_window_ms(250, 1250), Some(1000));
    assert_eq!(trim_window_ms(1250, 250), None);
    assert_eq!(trim_window_ms(7, 7), Some(0));
}

#[test]
fn clip_from_probe_selects_whole_source() {
    let m = meta(90_000, 1280, 720, true);
    let c = Clip::from_probe("fresh".to_string(), "/media/fresh.mp4".to_string(), m);
    assert_eq!(c.start_ms, 0);
    assert_eq!(c.end_ms, 90_000);
    assert_eq!(c.trim_in_ms, 0);
    assert_eq!(c.trim_out_ms, 90_000);
    assert!(c.is_valid());
}

#[test]
fn times_beyond_the_limit_rejected() {
    // A clip whose end passes the engine's time bound is invalid input.
    let far = clipforge::MAX_TIME_MS + 1;
    let mut c = clip("far", far - 1000, far, 0, 1000);
    c.meta = meta(far, 1920, 1080, true);
    let clips = vec![c];
    assert_eq!(
        compile(&clips, &Resolution::FullHd1080),
        Err(ExportError::InvalidClip { index: 0 })
    );
}

#[test]
fn clip_at_the_time_limit_accepted() {
    let limit = clipforge::MAX_TIME_MS;
    let mut c = clip("edge", limit - 1000, limit, 0, 1000);
    c.meta = meta(limit, 1920, 1080, true);
    let clips = vec![c];
    let plan = compile(&clips, &Resolution::FullHd1080).unwrap();
    assert_eq!(plan.profile.total_duration_ms, limit + clipforge::TAIL_PAD_MS);
}
