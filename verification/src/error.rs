//! Error taxonomy of the compositing engine.
//!
//! Every failure is reported as a structured value; the engine never hands
//! back a partial plan. All variants here are detected before any external
//! tool would run.

use vstd::prelude::*;
use vstd::string::*;

verus! {

/// Why a clip set could not be compiled into a rendering plan.
#[derive(Clone, Debug, PartialEq, Eq)]
pub enum ExportError {
    /// The clip set was empty.
    EmptyTimeline,
    /// The clip at `index` (in input order) breaks a per-clip invariant:
    /// inverted placement or trim interval, a trim window outside the
    /// source, a placement duration that differs from the trim duration,
    /// a time beyond `MAX_TIME_MS`, or a source without pixels.
    InvalidClip { index: usize },
    /// Two clips overlap on the output timeline. `first_id` and `second_id`
    /// are the ids of the earliest such neighbours in start order.
    Overlap { first_id: String, second_id: String },
    /// The requested output resolution rounds down to fewer than two pixels
    /// on a side, which no codec can encode.
    InvalidResolution,
}

impl ExportError {
    /// A human-readable description; the engine itself never prints it.
    pub fn message(&self) -> (r: String)
        ensures
            self is EmptyTimeline ==> r@ == "no clips to export"@,
            self is InvalidClip ==> r@ == "a clip has an invalid placement or trim window"@,
            self matches ExportError::Overlap { first_id, second_id }
                ==> r@ == "clips overlap on the timeline: "@ + first_id@ + " and "@
                    + second_id@,
            self is InvalidResolution ==> r@ == "requested resolution is too small"@,
    {
        match self {
            ExportError::EmptyTimeline => "no clips to export".to_owned(),
            ExportError::InvalidClip { index: _ } => {
                "a clip has an invalid placement or trim window".to_owned()
            },
            ExportError::Overlap { first_id, second_id } => {
                let mut s = "clips overlap on the timeline: ".to_owned();
                s.append(first_id.as_str());
                s.append(" and ");
                s.append(second_id.as_str());
                s
            },
            ExportError::InvalidResolution => "requested resolution is too small".to_owned(),
        }
    }
}

} // verus!
