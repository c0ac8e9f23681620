//! Timeline compositing engine for a clip-based video editor.
//!
//! The library turns an unordered set of placed, trimmed clips into a
//! deterministic rendering plan: a validated timeline, a gap-free segment
//! sequence, a typed render graph and an output profile. The plan is an
//! engine-agnostic description; running it through a transcoder, probing
//! media files and all other I/O stay outside the library.
//!
//! Around that core stand the smaller verified pieces of the editor: the
//! recorder's session bookkeeping, the filter and style tables, the
//! coordinate parsers of the character detector and the sprite-sheet
//! geometry.

use vstd::prelude::*;

pub mod clip;
pub mod decimal;
pub mod error;
pub mod filters;
pub mod graph;
pub mod parse;
pub mod paths;
pub mod plan;
pub mod planner;
pub mod resolution;
pub mod sessions;
pub mod sprites;
pub mod text;
pub mod timeline;

pub use clip::Clip;
pub use clip::ClipMeta;
pub use clip::MAX_TIME_MS;
pub use error::ExportError;
pub use plan::RenderPlan;
pub use plan::compile;
pub use resolution::Resolution;
pub use timeline::Timeline;

verus! {

/// Milliseconds of output appended after the last clip so that an encoder
/// rounding down never drops the final frame.
pub const TAIL_PAD_MS: u64 = 100;

/// Frame rate of the rendered output and of generated gap video.
pub const OUTPUT_FRAME_RATE: u32 = 30;

/// Sample rate of generated silent audio and of the rendered output.
pub const AUDIO_SAMPLE_RATE_HZ: u32 = 48000;

} // verus!
