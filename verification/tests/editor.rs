//! Tests of the session manager, the filter and style tables and the
//! sprite-sheet layout.

use clipforge::filters::available_ai_styles;
use clipforge::filters::available_ffmpeg_styles;
use clipforge::filters::available_upscale_models;
use clipforge::filters::build_filter_chain;
use clipforge::filters::concat_descriptor;
use clipforge::filters::enhancement_filter;
use clipforge::filters::filter_expression;
use clipforge::filters::filters_applied_result;
use clipforge::filters::quality_settings;
use clipforge::filters::media_scale_filter;
use clipforge::filters::scale_flags;
use clipforge::filters::scene_plan;
use clipforge::filters::scene_prompt;
use clipforge::filters::select_upscale_model;
use clipforge::filters::UpscaleModel;
use clipforge::filters::style_filter;
use clipforge::filters::upscaled_result;
use clipforge::filters::validate_upscale;
use clipforge::filters::video_enhancement_options;
use clipforge::plan::EncodePreset;
use clipforge::sessions::available_monitors;
use clipforge::sessions::CaptureSource;
use clipforge::sessions::RecordingSession;
use clipforge::sessions::SessionManager;
use clipforge::sprites::is_sky_color;
use clipforge::sprites::sheet_layout;
use clipforge::sprites::BoundingBox;

fn source(id: &str) -> CaptureSource {
    CaptureSource {
        id: id.to_string(),
        name: "display".to_string(),
        source_type: "monitor".to_string(),
        device_id: "dev-1".to_string(),
        x: 0,
        y: 0,
        width: 1920,
        height: 1080,
        is_active: true,
    }
}

fn session(id: &str, kind: &str, active: bool) -> RecordingSession {
    RecordingSession {
        id: id.to_string(),
        output_path: format!("/tmp/{id}.mp4"),
        process_id: Some(4242),
        recording_type: kind.to_string(),
        is_active: active,
    }
}

#[test]
fn add_capture_source_assigns_fresh_id() {
    let mut mgr = SessionManager::new();
    let id = mgr.add_capture_source(
        "monitor".to_string(),
        "dev-1".to_string(),
        "main display".to_string(),
        0,
        0,
        2560,
        1600,
    );
    // The id is a hyphenated random identifier, never empty or short.
    assert_eq!(id.len(), 36);
    let sources = mgr.sources();
    assert_eq!(sources.len(), 1);
    assert_eq!(sources[0].id, id);
    assert!(sources[0].is_active);
    assert_eq!(sources[0].width, 2560);
}

#[test]
fn update_and_remove_source() {
    let mut mgr = SessionManager::new();
    mgr.add_source(source("s1"));
    mgr.add_source(source("s2"));
    assert!(mgr.update_source_position(&"s1".to_string(), 10, 20, 640, 360));
    assert_eq!(mgr.sources()[0].x, 10);
    assert_eq!(mgr.sources()[0].y, 20);
    assert_eq!(mgr.sources()[0].width, 640);
    assert_eq!(mgr.sources()[1].width, 1920);
    assert!(!mgr.update_source_position(&"missing".to_string(), 0, 0, 1, 1));

    assert!(mgr.remove_source(&"s1".to_string()));
    assert_eq!(mgr.sources().len(), 1);
    assert_eq!(mgr.sources()[0].id, "s2");
    assert!(!mgr.remove_source(&"s1".to_string()));
}

#[test]
fn add_source_replaces_same_id() {
    let mut mgr = SessionManager::new();
    mgr.add_source(source("dup"));
    let mut replacement = source("dup");
    replacement.name = "other".to_string();
    mgr.add_source(replacement);
    assert_eq!(mgr.sources().len(), 1);
    assert_eq!(mgr.sources()[0].name, "other");
}

#[test]
fn stop_session_picks_first_active_of_type() {
    let mut mgr = SessionManager::new();
    mgr.start_session(session("r1", "screen", false));
    mgr.start_session(session("r2", "screen", true));
    mgr.start_session(session("r3", "webcam", true));
    let stopped = mgr.stop_session(&"screen".to_string()).unwrap();
    assert_eq!(stopped.0, "r2");
    assert_eq!(stopped.1, Some(4242));
    assert!(!mgr.sessions()[1].is_active);
    assert!(mgr.sessions()[2].is_active);
    // No active screen recording is left.
    assert_eq!(mgr.stop_session(&"screen".to_string()), None);
}

#[test]
fn monitor_catalogue() {
    let monitors = available_monitors();
    assert_eq!(monitors.len(), 2);
    assert_eq!(monitors[0].id, "monitor_1");
    assert!(monitors[0].is_primary);
    assert_eq!((monitors[0].width, monitors[0].height), (2560, 1600));
    assert_eq!(monitors[1].id, "monitor_2");
    assert!(!monitors[1].is_primary);
}

#[test]
fn filter_chain_joins_in_order() {
    let filters = vec!["grayscale".to_string(), "blur".to_string()];
    assert_eq!(
        build_filter_chain(&filters).unwrap(),
        "hue=s=0,gblur=sigma=2"
    );
}

#[test]
fn filter_chain_rejects_unknown_name() {
    let filters = vec!["grayscale".to_string(), "sparkle".to_string()];
    assert_eq!(
        build_filter_chain(&filters),
        Err("Unknown filter: sparkle".to_string())
    );
}

#[test]
fn filter_expressions() {
    assert_eq!(
        filter_expression(&"pixelate".to_string()),
        Some("scale=iw/8:ih/8:flags=neighbor,scale=iw*8:ih*8:flags=neighbor")
    );
    assert_eq!(filter_expression(&"nope".to_string()), None);
}

#[test]
fn style_table() {
    assert_eq!(style_filter(&"sketch".to_string()), "edgedetect=low=0.1:high=0.4");
    assert_eq!(
        style_filter(&"unheard-of".to_string()),
        "eq=contrast=1.1:brightness=0.05:saturation=1.1"
    );
}

#[test]
fn scaling_tables() {
    assert_eq!(scale_flags(&"bicubic".to_string()), "flags=bicubic");
    assert_eq!(scale_flags(&"anything".to_string()), "flags=lanczos");
    assert_eq!(
        enhancement_filter(&"esrgan".to_string(), 4),
        "scale=iw*4:ih*4:flags=lanczos,unsharp=3:3:0.5:2:2:0.2"
    );
    assert_eq!(
        enhancement_filter(&"plain".to_string(), 2),
        "scale=iw*2:ih*2:flags=lanczos"
    );
}

#[test]
fn quality_table() {
    assert_eq!(quality_settings(&"fast".to_string()), (EncodePreset::Fast, 23));
    assert_eq!(quality_settings(&"high".to_string()), (EncodePreset::Slow, 18));
    assert_eq!(quality_settings(&"other".to_string()), (EncodePreset::Medium, 20));
}

#[test]
fn upscale_validation() {
    assert_eq!(validate_upscale(1920, 1080, 2), Ok((3840, 2160)));
    assert_eq!(
        validate_upscale(1920, 1080, 3),
        Err("Upscale factor must be 2, 4, or 8".to_string())
    );
    assert_eq!(
        validate_upscale(1920, 1080, 4),
        Err(
            "Target resolution 7680x4320 exceeds 4K limit (3840x2160). Try a lower upscale factor."
                .to_string()
        )
    );
}

#[test]
fn scene_planning_conserves_duration() {
    assert_eq!(scene_plan(12000), (3, 4000, 4000));
    assert_eq!(scene_plan(5000), (1, 5000, 5000));
    // The last scene absorbs the division remainder: no time is lost.
    assert_eq!(scene_plan(5001), (2, 2500, 2501));
    assert_eq!(scene_plan(0), (0, 0, 0));
    for d in [1u64, 4999, 5000, 5001, 9999, 10000, 123_456] {
        let (count, scene, last) = scene_plan(d);
        assert_eq!((count - 1) * scene + last, d);
    }
}

#[test]
fn scene_prompts() {
    let prompt = "a quiet harbor".to_string();
    assert_eq!(scene_prompt(&prompt, 1, 1), "a quiet harbor");
    assert_eq!(scene_prompt(&prompt, 2, 3), "a quiet harbor - Scene 2 of 3");
}

#[test]
fn upscale_model_selection() {
    assert_eq!(
        select_upscale_model(&"realesrgan".to_string()),
        Ok(UpscaleModel::RealEsrgan)
    );
    assert_eq!(
        select_upscale_model(&"lanczos".to_string()),
        Ok(UpscaleModel::Lanczos)
    );
    assert_eq!(
        select_upscale_model(&"sharpify".to_string()),
        Err("Unsupported model: sharpify".to_string())
    );
}

#[test]
fn media_scale_filter_composition() {
    assert_eq!(
        media_scale_filter(&"bicubic".to_string(), 2),
        "scale=iw*2:ih*2:flags=bicubic"
    );
    assert_eq!(
        media_scale_filter(&"anything".to_string(), 8),
        "scale=iw*8:ih*8:flags=lanczos"
    );
}

#[test]
fn concat_descriptor_layout() {
    let paths = vec!["/tmp/s0.png".to_string(), "/tmp/s1.png".to_string()];
    assert_eq!(
        concat_descriptor(&paths, 2500),
        "file '/tmp/s0.png'\nduration 2.500\n\
         file '/tmp/s1.png'\nduration 2.500\n\
         file '/tmp/s1.png'\n"
    );
    assert_eq!(concat_descriptor(&Vec::new(), 2500), "");
}

#[test]
fn result_messages() {
    let r = filters_applied_result("/tmp/out.mp4".to_string(), 3);
    assert!(r.success);
    assert_eq!(r.output_path, "/tmp/out.mp4");
    assert_eq!(r.message, "Applied 3 filters successfully");
    let u = upscaled_result("/tmp/up.mp4".to_string(), 8);
    assert_eq!(u.message, "Upscaled by 8x successfully");
}

#[test]
fn catalogues() {
    assert_eq!(
        available_ffmpeg_styles(),
        vec!["cartoon", "grayscale", "sepia", "sketch", "edge", "vintage", "dramatic", "soft"]
    );
    assert_eq!(
        available_ai_styles(),
        vec!["toon-shade", "oil-painting", "watercolor", "cyberpunk", "retro"]
    );
    assert_eq!(
        available_upscale_models(),
        vec!["realesrgan", "esrgan", "waifu2x", "lanczos"]
    );
    assert_eq!(
        video_enhancement_options(),
        vec!["denoise", "sharpen", "color_correct", "stabilize", "remove_grain"]
    );
}

#[test]
fn sky_color_boundaries() {
    assert!(is_sky_color(99, 151, 201));
    assert!(!is_sky_color(100, 151, 201));
    assert!(!is_sky_color(99, 150, 201));
    assert!(!is_sky_color(99, 151, 200));
}

#[test]
fn sprite_sheet_grid() {
    let boxes = vec![
        BoundingBox { x: 0, y: 0, width: 16, height: 16 },
        BoundingBox { x: 0, y: 0, width: 16, height: 12 },
        BoundingBox { x: 0, y: 0, width: 12, height: 16 },
        BoundingBox { x: 0, y: 0, width: 16, height: 16 },
        BoundingBox { x: 0, y: 0, width: 10, height: 10 },
    ];
    let layout = sheet_layout(&boxes, 2).unwrap();
    assert_eq!(layout.columns, 3);
    assert_eq!(layout.rows, 2);
    assert_eq!((layout.cell.width, layout.cell.height), (20, 20));
    assert_eq!((layout.sheet_width, layout.sheet_height), (60, 40));
    assert_eq!(layout.padding, 2);
    assert_eq!(
        layout.positions,
        vec![(2, 2), (22, 2), (42, 2), (2, 22), (22, 22)]
    );
}

#[test]
fn sprite_sheet_rejects_bad_inputs() {
    assert!(sheet_layout(&Vec::new(), 2).is_none());
    let boxes = vec![BoundingBox { x: 0, y: 0, width: 16, height: 16 }];
    assert!(sheet_layout(&boxes, -1).is_none());
    let huge = vec![BoundingBox { x: 0, y: 0, width: 5000, height: 16 }];
    assert!(sheet_layout(&huge, 2).is_none());
}
