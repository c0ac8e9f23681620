//! File-naming conventions of the conversion tools.

use vstd::prelude::*;

use crate::text::chars_of;
use crate::text::replace_all;
use crate::text::replace_all_chars;
use crate::text::string_of_chars;

verus! {

/// Where a QuickTime conversion writes its output: every `.mov` in the
/// input path becomes `_converted.mp4`.
pub fn converted_output_path(input: &str) -> (r: String)
    ensures
        r@ == replace_all(input@, ".mov"@, "_converted.mp4"@),
{
    let cs = chars_of(input);
    let pat = chars_of(".mov");
    let repl = chars_of("_converted.mp4");
    proof {
        reveal_strlit(".mov");
    }
    let replaced = replace_all_chars(&cs, &pat, &repl);
    string_of_chars(&replaced)
}

} // verus!
