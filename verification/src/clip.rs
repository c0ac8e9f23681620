//! The clip model: one piece of source media placed on the output timeline.
//!
//! All times are integral milliseconds. Callers that measure time in seconds
//! convert before constructing a clip; a time that is not a finite
//! non-negative number has no millisecond representation, so rejecting
//! non-finite input happens at that conversion boundary and every clip the
//! library sees carries well-defined times.

use vstd::prelude::*;

verus! {

/// Upper bound on every time value (milliseconds) the engine accepts, so
/// that sums of durations and the trailing output pad never overflow `u64`.
pub const MAX_TIME_MS: u64 = 1_000_000_000_000;

/// Immutable metadata of a source media file, as reported by a probe.
#[derive(Clone, Copy, Debug, PartialEq, Eq)]
pub struct ClipMeta {
    /// Duration of the source file in milliseconds.
    pub duration_ms: u64,
    /// Width of the video stream in pixels.
    pub width: u32,
    /// Height of the video stream in pixels.
    pub height: u32,
    /// Frame rate numerator, as probed (e.g. 30000 for 29.97 fps).
    pub fps_num: u32,
    /// Frame rate denominator, as probed (e.g. 1001 for 29.97 fps).
    pub fps_den: u32,
    /// Whether the source has an audio stream.
    pub has_audio: bool,
}

/// One source media reference with an output placement interval
/// `[start_ms, end_ms)` and a source trim interval `[trim_in_ms, trim_out_ms)`.
#[derive(Debug, PartialEq, Eq)]
pub struct Clip {
    /// Opaque unique identifier, owned by the caller.
    pub id: String,
    /// Path or other reference to the source media; never interpreted here.
    pub source_path: String,
    /// Probed metadata of the source media.
    pub meta: ClipMeta,
    /// Placement start on the output timeline, milliseconds.
    pub start_ms: u64,
    /// Placement end on the output timeline, milliseconds.
    pub end_ms: u64,
    /// Start of the selected sub-range of the source, milliseconds.
    pub trim_in_ms: u64,
    /// End of the selected sub-range of the source, milliseconds.
    pub trim_out_ms: u64,
}

impl Clone for Clip {
    /// A clone is equal to the original in every field.
    fn clone(&self) -> (r: Self)
        ensures
            r == *self,
    {
        Clip {
            id: self.id.clone(),
            source_path: self.source_path.clone(),
            meta: self.meta,
            start_ms: self.start_ms,
            end_ms: self.end_ms,
            trim_in_ms: self.trim_in_ms,
            trim_out_ms: self.trim_out_ms,
        }
    }
}

impl Clip {
    /// Duration the clip occupies on the output timeline.
    pub open spec fn spec_placed_duration(self) -> int {
        self.end_ms - self.start_ms
    }

    /// Duration of the selected source material.
    pub open spec fn spec_trim_duration(self) -> int {
        self.trim_out_ms - self.trim_in_ms
    }

    /// Every invariant a clip must satisfy before it may enter a timeline:
    /// ordered placement times bounded by `MAX_TIME_MS`, a trim window inside
    /// the source, a placement duration equal to the trim duration (the
    /// engine rejects a mismatch rather than desynchronize the output), and
    /// a source with visible pixels.
    pub open spec fn spec_valid(self) -> bool {
        &&& self.start_ms <= self.end_ms <= MAX_TIME_MS
        &&& self.trim_in_ms <= self.trim_out_ms <= self.meta.duration_ms
        &&& self.spec_placed_duration() == self.spec_trim_duration()
        &&& self.meta.width >= 1
        &&& self.meta.height >= 1
    }

    /// Runtime check of `spec_valid`.
    pub fn is_valid(&self) -> (r: bool)
        ensures
            r == self.spec_valid(),
    {
        self.start_ms <= self.end_ms && self.end_ms <= MAX_TIME_MS
            && self.trim_in_ms <= self.trim_out_ms
            && self.trim_out_ms <= self.meta.duration_ms
            && self.end_ms - self.start_ms == self.trim_out_ms - self.trim_in_ms
            && self.meta.width >= 1 && self.meta.height >= 1
    }

    /// A freshly imported clip: placed at the start of the timeline with its
    /// whole source selected, as an importer hands it to the editor.
    pub fn from_probe(id: String, source_path: String, meta: ClipMeta) -> (r: Clip)
        ensures
            r.id == id,
            r.source_path == source_path,
            r.meta == meta,
            r.start_ms == 0,
            r.end_ms == meta.duration_ms,
            r.trim_in_ms == 0,
            r.trim_out_ms == meta.duration_ms,
            meta.duration_ms <= MAX_TIME_MS && meta.width >= 1 && meta.height >= 1
                ==> r.spec_valid(),
    {
        let end = meta.duration_ms;
        Clip {
            id,
            source_path,
            meta,
            start_ms: 0,
            end_ms: end,
            trim_in_ms: 0,
            trim_out_ms: end,
        }
    }
}

/// Length of the window `[start_ms, end_ms)` a single trim request selects,
/// or `None` when the window is inverted.
pub fn trim_window_ms(start_ms: u64, end_ms: u64) -> (r: Option<u64>)
    ensures
        start_ms <= end_ms ==> r == Some((end_ms - start_ms) as u64),
        start_ms > end_ms ==> r is None,
{
    if start_ms <= end_ms {
        Some(end_ms - start_ms)
    } else {
        None
    }
}

} // verus!
