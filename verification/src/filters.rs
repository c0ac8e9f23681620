//! Filter and style tables of the media enhancer: the mapping from a
//! requested filter, style, method or quality name to the exact filter
//! expression or encoder settings handed to the external video tool, and
//! the validation of upscale requests.

use vstd::prelude::*;
use vstd::string::StringExecFns;

use crate::decimal::ms_to_seconds_string;
use crate::decimal::spec_decimal;
use crate::decimal::spec_seconds;
use crate::decimal::u64_to_string;
use crate::plan::EncodePreset;

verus! {

/// Outcome of one filter or upscale run, as reported to the caller.
#[derive(Debug)]
pub struct FilterResult {
    /// Where the processed file was written.
    pub output_path: String,
    /// Whether processing succeeded.
    pub success: bool,
    /// A human-readable account of what was done.
    pub message: String,
}

/// The filter expression a filter name stands for, or `None` for an
/// unknown name.
pub open spec fn filter_expression_spec(id: Seq<char>) -> Option<Seq<char>> {
    if id == "grayscale"@ {
        Some("hue=s=0"@)
    } else if id == "edge_detect"@ {
        Some("edgedetect=low=0.1:high=0.4"@)
    } else if id == "blur"@ {
        Some("gblur=sigma=2"@)
    } else if id == "sharpen"@ {
        Some("unsharp=5:5:1.0:5:5:0.0"@)
    } else if id == "sepia"@ {
        Some("colorchannelmixer=.393:.769:.189:0:.349:.686:.168:0:.272:.534:.131"@)
    } else if id == "vintage"@ {
        Some("curves=vintage"@)
    } else if id == "invert"@ {
        Some("negate"@)
    } else if id == "saturate"@ {
        Some("eq=saturation=2.0"@)
    } else if id == "pixelate"@ {
        Some("scale=iw/8:ih/8:flags=neighbor,scale=iw*8:ih*8:flags=neighbor"@)
    } else if id == "emboss"@ {
        Some(
            "convolution=0 -1 0 -1 5 -1 0 -1 0:0 -1 0 -1 5 -1 0 -1 0:0 -1 0 -1 5 -1 0 -1 0:0 -1 0 -1 5 -1 0 -1 0"@,
        )
    } else if id == "oil_paint"@ {
        Some("gblur=sigma=1.5,eq=saturation=1.5"@)
    } else {
        None
    }
}

/// Looks a filter name up in the table.
pub fn filter_expression(id: &String) -> (r: Option<&'static str>)
    ensures
        match r {
            Some(e) => filter_expression_spec(id@) == Some(e@),
            None => filter_expression_spec(id@) is None,
        },
{
    if *id == "grayscale".to_owned() {
        Some("hue=s=0")
    } else if *id == "edge_detect".to_owned() {
        Some("edgedetect=low=0.1:high=0.4")
    } else if *id == "blur".to_owned() {
        Some("gblur=sigma=2")
    } else if *id == "sharpen".to_owned() {
        Some("unsharp=5:5:1.0:5:5:0.0")
    } else if *id == "sepia".to_owned() {
        Some("colorchannelmixer=.393:.769:.189:0:.349:.686:.168:0:.272:.534:.131")
    } else if *id == "vintage".to_owned() {
        Some("curves=vintage")
    } else if *id == "invert".to_owned() {
        Some("negate")
    } else if *id == "saturate".to_owned() {
        Some("eq=saturation=2.0")
    } else if *id == "pixelate".to_owned() {
        Some("scale=iw/8:ih/8:flags=neighbor,scale=iw*8:ih*8:flags=neighbor")
    } else if *id == "emboss".to_owned() {
        Some(
            "convolution=0 -1 0 -1 5 -1 0 -1 0:0 -1 0 -1 5 -1 0 -1 0:0 -1 0 -1 5 -1 0 -1 0:0 -1 0 -1 5 -1 0 -1 0",
        )
    } else if *id == "oil_paint".to_owned() {
        Some("gblur=sigma=1.5,eq=saturation=1.5")
    } else {
        None
    }
}

/// The chain of the first `n` filter names, joined by commas, or the
/// complaint about the first unknown name.
pub open spec fn filter_chain_spec(ids: Seq<Seq<char>>, n: int) -> Result<Seq<char>, Seq<char>>
    decreases n,
{
    if n <= 0 {
        Ok(Seq::<char>::empty())
    } else {
        match filter_chain_spec(ids, n - 1) {
            Err(e) => Err(e),
            Ok(acc) => match filter_expression_spec(ids[n - 1]) {
                None => Err("Unknown filter: "@ + ids[n - 1]),
                Some(x) => Ok(
                    if n == 1 {
                        x
                    } else {
                        acc + ","@ + x
                    },
                ),
            },
        }
    }
}

/// An error in a chain prefix is the chain's error.
proof fn lemma_chain_err_propagates(ids: Seq<Seq<char>>, k: int, n: int)
    requires
        0 <= k <= n,
        filter_chain_spec(ids, k) is Err,
    ensures
        filter_chain_spec(ids, n) == filter_chain_spec(ids, k),
    decreases n - k,
{
    if k < n {
        lemma_chain_err_propagates(ids, k, n - 1);
    }
}

/// Builds the filter chain for the requested filter names, joined by
/// commas in request order, or reports the first unknown name.
#[verifier::loop_isolation(false)]
pub fn build_filter_chain(filters: &Vec<String>) -> (r: Result<String, String>)
    ensures
        match r {
            Ok(s) => filter_chain_spec(
                filters@.map_values(|f: String| f@),
                filters@.len() as int,
            ) == Ok::<Seq<char>, Seq<char>>(s@),
            Err(e) => filter_chain_spec(
                filters@.map_values(|f: String| f@),
                filters@.len() as int,
            ) == Err::<Seq<char>, Seq<char>>(e@),
        },
{
    let ghost ids = filters@.map_values(|f: String| f@);
    let mut chain = String::new();
    let mut i: usize = 0;
    while i < filters.len()
        invariant
            0 <= i <= filters@.len(),
            filter_chain_spec(ids, i as int) == Ok::<Seq<char>, Seq<char>>(chain@),
        decreases filters@.len() - i,
    {
        proof {
            assert(ids[i as int] == filters@[i as int]@);
        }
        match filter_expression(&filters[i]) {
            None => {
                let mut m = "Unknown filter: ".to_owned();
                m.append(filters[i].as_str());
                proof {
                    assert(m@ =~= "Unknown filter: "@ + ids[i as int]);
                    lemma_chain_err_propagates(ids, i + 1, filters@.len() as int);
                }
                return Err(m);
            },
            Some(expr) => {
                if i > 0 {
                    chain.append(",");
                }
                chain.append(expr);
            },
        }
        i = i + 1;
    }
    Ok(chain)
}

/// The filter expression a style name stands for; an unrecognized name
/// gets the mild default enhancement.
pub open spec fn style_filter_spec(style: Seq<char>) -> Seq<char> {
    if style == "cartoon"@ {
        "colorchannelmixer=rr=0.393:gg=0.769:bb=0.189:aa=1.0,eq=contrast=1.5:brightness=0.1:saturation=1.2"@
    } else if style == "grayscale"@ {
        "colorchannelmixer=.3:.4:.3:0:.3:.4:.3:0:.3:.4:.3:0"@
    } else if style == "sepia"@ {
        "colorchannelmixer=.393:.769:.189:0:.349:.686:.168:0:.272:.534:.131:0"@
    } else if style == "sketch"@ || style == "edge"@ {
        "edgedetect=low=0.1:high=0.4"@
    } else if style == "vintage"@ {
        "curves=vintage,eq=contrast=1.1:brightness=-0.1:saturation=0.8"@
    } else if style == "dramatic"@ {
        "eq=contrast=1.5:brightness=-0.1:saturation=1.3,unsharp=5:5:0.8:3:3:0.4"@
    } else if style == "soft"@ {
        "eq=contrast=0.8:brightness=0.1:saturation=0.7,boxblur=2:1"@
    } else {
        "eq=contrast=1.1:brightness=0.05:saturation=1.1"@
    }
}

/// Looks a style name up in the table.
pub fn style_filter(style: &String) -> (r: &'static str)
    ensures
        r@ == style_filter_spec(style@),
{
    if *style == "cartoon".to_owned() {
        "colorchannelmixer=rr=0.393:gg=0.769:bb=0.189:aa=1.0,eq=contrast=1.5:brightness=0.1:saturation=1.2"
    } else if *style == "grayscale".to_owned() {
        "colorchannelmixer=.3:.4:.3:0:.3:.4:.3:0:.3:.4:.3:0"
    } else if *style == "sepia".to_owned() {
        "colorchannelmixer=.393:.769:.189:0:.349:.686:.168:0:.272:.534:.131:0"
    } else if *style == "sketch".to_owned() || *style == "edge".to_owned() {
        "edgedetect=low=0.1:high=0.4"
    } else if *style == "vintage".to_owned() {
        "curves=vintage,eq=contrast=1.1:brightness=-0.1:saturation=0.8"
    } else if *style == "dramatic".to_owned() {
        "eq=contrast=1.5:brightness=-0.1:saturation=1.3,unsharp=5:5:0.8:3:3:0.4"
    } else if *style == "soft".to_owned() {
        "eq=contrast=0.8:brightness=0.1:saturation=0.7,boxblur=2:1"
    } else {
        "eq=contrast=1.1:brightness=0.05:saturation=1.1"
    }
}

/// The scaling flags a method name stands for; unknown names scale with
/// the default high-quality kernel.
pub open spec fn scale_flags_spec(method: Seq<char>) -> Seq<char> {
    if method == "lanczos"@ {
        "flags=lanczos"@
    } else if method == "bicubic"@ {
        "flags=bicubic"@
    } else {
        "flags=lanczos"@
    }
}

/// Looks a scaling method up.
pub fn scale_flags(method: &String) -> (r: &'static str)
    ensures
        r@ == scale_flags_spec(method@),
{
    if *method == "lanczos".to_owned() {
        "flags=lanczos"
    } else if *method == "bicubic".to_owned() {
        "flags=bicubic"
    } else {
        "flags=lanczos"
    }
}

/// The full upscale filter for a factor and model: a scale by the factor
/// with the high-quality kernel, followed by the model's sharpening and
/// tone adjustments.
pub open spec fn enhancement_filter_spec(model: Seq<char>, factor: u32) -> Seq<char> {
    let scale = "scale=iw*"@ + spec_decimal(factor as int) + ":ih*"@ + spec_decimal(
        factor as int,
    ) + ":flags=lanczos"@;
    if model == "realesrgan"@ {
        scale + ",unsharp=5:5:0.8:3:3:0.4,eq=contrast=1.1:brightness=0.02"@
    } else if model == "esrgan"@ {
        scale + ",unsharp=3:3:0.5:2:2:0.2"@
    } else if model == "waifu2x"@ {
        scale + ",eq=contrast=1.2:brightness=0.05:saturation=1.1,unsharp=2:2:0.3"@
    } else {
        scale
    }
}

/// Builds the upscale filter for a factor and model.
pub fn enhancement_filter(model: &String, factor: u32) -> (r: String)
    ensures
        r@ == enhancement_filter_spec(model@, factor),
{
    let digits = u64_to_string(factor as u64);
    let mut scale = "scale=iw*".to_owned();
    scale.append(digits.as_str());
    scale.append(":ih*");
    scale.append(digits.as_str());
    scale.append(":flags=lanczos");
    if *model == "realesrgan".to_owned() {
        scale.append(",unsharp=5:5:0.8:3:3:0.4,eq=contrast=1.1:brightness=0.02");
    } else if *model == "esrgan".to_owned() {
        scale.append(",unsharp=3:3:0.5:2:2:0.2");
    } else if *model == "waifu2x".to_owned() {
        scale.append(",eq=contrast=1.2:brightness=0.05:saturation=1.1,unsharp=2:2:0.3");
    }
    scale
}

/// Encoder preset and constant rate factor of a quality name; an unknown
/// name gets the balanced settings.
pub open spec fn quality_settings_spec(quality: Seq<char>) -> (EncodePreset, u8) {
    if quality == "fast"@ {
        (EncodePreset::Fast, 23u8)
    } else if quality == "balanced"@ {
        (EncodePreset::Medium, 20u8)
    } else if quality == "high"@ {
        (EncodePreset::Slow, 18u8)
    } else {
        (EncodePreset::Medium, 20u8)
    }
}

/// Looks a quality name up.
pub fn quality_settings(quality: &String) -> (r: (EncodePreset, u8))
    ensures
        r == quality_settings_spec(quality@),
{
    if *quality == "fast".to_owned() {
        (EncodePreset::Fast, 23)
    } else if *quality == "balanced".to_owned() {
        (EncodePreset::Medium, 20)
    } else if *quality == "high".to_owned() {
        (EncodePreset::Slow, 18)
    } else {
        (EncodePreset::Medium, 20)
    }
}

/// The upscaling backends the editor can run.
#[derive(Clone, Copy, Debug, PartialEq, Eq, Structural)]
pub enum UpscaleModel {
    RealEsrgan,
    Esrgan,
    Waifu2x,
    Lanczos,
}

/// The backend a model name selects, or `None` for an unknown name.
pub open spec fn upscale_model_spec(model: Seq<char>) -> Option<UpscaleModel> {
    if model == "realesrgan"@ {
        Some(UpscaleModel::RealEsrgan)
    } else if model == "esrgan"@ {
        Some(UpscaleModel::Esrgan)
    } else if model == "waifu2x"@ {
        Some(UpscaleModel::Waifu2x)
    } else if model == "lanczos"@ {
        Some(UpscaleModel::Lanczos)
    } else {
        None
    }
}

/// Validates an upscaling model name: the backend it selects, or the
/// exact complaint about an unsupported name.
pub fn select_upscale_model(model: &String) -> (r: Result<UpscaleModel, String>)
    ensures
        match r {
            Ok(backend) => upscale_model_spec(model@) == Some(backend),
            Err(e) => upscale_model_spec(model@) is None && e@ == "Unsupported model: "@
                + model@,
        },
{
    if *model == "realesrgan".to_owned() {
        Ok(UpscaleModel::RealEsrgan)
    } else if *model == "esrgan".to_owned() {
        Ok(UpscaleModel::Esrgan)
    } else if *model == "waifu2x".to_owned() {
        Ok(UpscaleModel::Waifu2x)
    } else if *model == "lanczos".to_owned() {
        Ok(UpscaleModel::Lanczos)
    } else {
        let mut m = "Unsupported model: ".to_owned();
        m.append(model.as_str());
        proof {
            assert(m@ =~= "Unsupported model: "@ + model@);
        }
        Err(m)
    }
}

/// The plain media upscale filter: both dimensions multiplied by the
/// factor, interpolated with the flags the method name selects.
pub open spec fn media_scale_filter_spec(method: Seq<char>, factor: u32) -> Seq<char> {
    "scale=iw*"@ + spec_decimal(factor as int) + ":ih*"@ + spec_decimal(factor as int) + ":"@
        + scale_flags_spec(method)
}

/// Builds the plain media upscale filter for a factor and method.
pub fn media_scale_filter(method: &String, factor: u32) -> (r: String)
    ensures
        r@ == media_scale_filter_spec(method@, factor),
{
    let digits = u64_to_string(factor as u64);
    let mut s = "scale=iw*".to_owned();
    s.append(digits.as_str());
    s.append(":ih*");
    s.append(digits.as_str());
    s.append(":");
    s.append(scale_flags(method));
    s
}

/// Largest output width an upscale may produce.
pub const MAX_UPSCALE_WIDTH: u64 = 3840;

/// Largest output height an upscale may produce.
pub const MAX_UPSCALE_HEIGHT: u64 = 2160;

/// Checks an upscale request: the factor must be 2, 4 or 8, and the
/// scaled frame must stay within the four-K limit. Returns the target
/// dimensions, or the exact complaint.
pub fn validate_upscale(width: u32, height: u32, factor: u32) -> (r: Result<(u32, u32), String>)
    ensures
        factor != 2 && factor != 4 && factor != 8 ==> (r matches Err(e) && e@
            == "Upscale factor must be 2, 4, or 8"@),
        (factor == 2 || factor == 4 || factor == 8) && (width * factor > MAX_UPSCALE_WIDTH
            || height * factor > MAX_UPSCALE_HEIGHT) ==> (r matches Err(e) && e@
            == "Target resolution "@ + spec_decimal(width * factor) + "x"@ + spec_decimal(
            height * factor,
        ) + " exceeds 4K limit (3840x2160). Try a lower upscale factor."@),
        (factor == 2 || factor == 4 || factor == 8) && width * factor <= MAX_UPSCALE_WIDTH
            && height * factor <= MAX_UPSCALE_HEIGHT ==> (r matches Ok(dims) && dims.0 == width
            * factor && dims.1 == height * factor),
{
    if factor != 2 && factor != 4 && factor != 8 {
        return Err("Upscale factor must be 2, 4, or 8".to_owned());
    }
    proof {
        assert((width as u64) * (factor as u64) <= 0xffff_ffff * 8 && (height as u64) * (
        factor as u64) <= 0xffff_ffff * 8) by (nonlinear_arith)
            requires
                width <= 0xffff_ffffu64 && height <= 0xffff_ffffu64 && factor <= 8,
        ;
    }
    let tw = (width as u64) * (factor as u64);
    let th = (height as u64) * (factor as u64);
    if tw > MAX_UPSCALE_WIDTH || th > MAX_UPSCALE_HEIGHT {
        let mut m = "Target resolution ".to_owned();
        m.append(u64_to_string(tw).as_str());
        m.append("x");
        m.append(u64_to_string(th).as_str());
        m.append(" exceeds 4K limit (3840x2160). Try a lower upscale factor.");
        return Err(m);
    }
    Ok((tw as u32, th as u32))
}

/// How a text-to-video request is cut into scenes: one scene per started
/// five seconds. All scenes but the last share an equal length; the last
/// scene absorbs the division remainder, so the scene lengths sum to the
/// requested duration exactly and no time is lost. The result is the
/// scene count, the common scene length, and the last scene's length.
pub fn scene_plan(duration_ms: u64) -> (r: (u64, u64, u64))
    ensures
        r.0 == (duration_ms + 4999) / 5000,
        r.0 > 0 ==> r.1 == duration_ms as int / r.0 as int,
        r.0 > 0 ==> r.2 == duration_ms - (r.0 - 1) * r.1,
        r.0 > 0 ==> (r.0 - 1) * r.1 + r.2 == duration_ms,
        r.0 > 0 ==> r.1 <= r.2,
        r.0 == 0 ==> r.1 == 0 && r.2 == 0 && duration_ms == 0,
{
    let count = duration_ms / 5000 + (if duration_ms % 5000 > 0 {
        1u64
    } else {
        0u64
    });
    proof {
        assert(count == (duration_ms + 4999) / 5000) by (nonlinear_arith)
            requires
                count == duration_ms / 5000 + (if duration_ms % 5000 > 0 {
                    1int
                } else {
                    0int
                }),
        ;
    }
    if count == 0 {
        (0, 0, 0)
    } else {
        let scene = duration_ms / count;
        proof {
            vstd::arithmetic::div_mod::lemma_fundamental_div_mod(
                duration_ms as int,
                count as int,
            );
            assert((count - 1) * scene == count * scene - scene) by (nonlinear_arith);
            assert(count * scene <= duration_ms);
        }
        let last = duration_ms - (count - 1) * scene;
        (count, scene, last)
    }
}

/// The prompt of one scene: the request itself for a single-scene video,
/// otherwise the request annotated with the scene's place in the run.
pub open spec fn scene_prompt_spec(prompt: Seq<char>, index: int, count: int) -> Seq<char> {
    if count == 1 {
        prompt
    } else {
        prompt + " - Scene "@ + spec_decimal(index) + " of "@ + spec_decimal(count)
    }
}

/// Builds the prompt of scene `index` (counted from one) out of `count`.
pub fn scene_prompt(prompt: &String, index: u64, count: u64) -> (r: String)
    ensures
        r@ == scene_prompt_spec(prompt@, index as int, count as int),
{
    if count == 1 {
        prompt.clone()
    } else {
        let mut s = prompt.clone();
        s.append(" - Scene ");
        s.append(u64_to_string(index).as_str());
        s.append(" of ");
        s.append(u64_to_string(count).as_str());
        s
    }
}

/// One descriptor entry per image: its file line and a duration line.
pub open spec fn descriptor_lines(
    paths: Seq<Seq<char>>,
    n: int,
    duration: Seq<char>,
) -> Seq<char>
    decreases n,
{
    if n <= 0 {
        Seq::<char>::empty()
    } else {
        descriptor_lines(paths, n - 1, duration) + "file '"@ + paths[n - 1] + "'\n"@
            + "duration "@ + duration + "\n"@
    }
}

/// The whole concatenation descriptor of an image sequence: one file and
/// duration line per image, then the last image's file line once more so
/// the final frame is held. Paths are inserted verbatim, as the
/// descriptor format has no escaping.
pub open spec fn concat_descriptor_spec(paths: Seq<Seq<char>>, scene_ms: u64) -> Seq<char> {
    let body = descriptor_lines(paths, paths.len() as int, spec_seconds(scene_ms as int));
    if paths.len() > 0 {
        body + "file '"@ + paths.last() + "'\n"@
    } else {
        body
    }
}

/// Builds the concatenation descriptor text for an image sequence whose
/// scenes all last `scene_ms`, exactly as `concat_descriptor_spec`
/// describes.
#[verifier::loop_isolation(false)]
pub fn concat_descriptor(image_paths: &Vec<String>, scene_ms: u64) -> (r: String)
    ensures
        r@ == concat_descriptor_spec(image_paths@.map_values(|p: String| p@), scene_ms),
{
    let ghost paths = image_paths@.map_values(|p: String| p@);
    let duration = ms_to_seconds_string(scene_ms);
    let mut out = String::new();
    let mut i: usize = 0;
    proof {
        assert(out@ =~= descriptor_lines(paths, 0, spec_seconds(scene_ms as int)));
    }
    while i < image_paths.len()
        invariant
            0 <= i <= image_paths@.len(),
            duration@ == spec_seconds(scene_ms as int),
            out@ == descriptor_lines(paths, i as int, spec_seconds(scene_ms as int)),
        decreases image_paths@.len() - i,
    {
        proof {
            assert(paths[i as int] == image_paths@[i as int]@);
        }
        out.append("file '");
        out.append(image_paths[i].as_str());
        out.append("'\n");
        out.append("duration ");
        out.append(duration.as_str());
        out.append("\n");
        i = i + 1;
    }
    if image_paths.len() > 0 {
        proof {
            assert(paths.last() == image_paths@[image_paths@.len() - 1]@);
        }
        out.append("file '");
        out.append(image_paths[image_paths.len() - 1].as_str());
        out.append("'\n");
    }
    out
}

/// A successful filter run's report: where the file went and how many
/// filters were applied.
pub fn filters_applied_result(output_path: String, filter_count: u64) -> (r: FilterResult)
    ensures
        r.output_path == output_path,
        r.success,
        r.message@ == "Applied "@ + spec_decimal(filter_count as int)
            + " filters successfully"@,
{
    let mut message = "Applied ".to_owned();
    message.append(u64_to_string(filter_count).as_str());
    message.append(" filters successfully");
    FilterResult { output_path, success: true, message }
}

/// A successful upscale's report.
pub fn upscaled_result(output_path: String, factor: u32) -> (r: FilterResult)
    ensures
        r.output_path == output_path,
        r.success,
        r.message@ == "Upscaled by "@ + spec_decimal(factor as int) + "x successfully"@,
{
    let mut message = "Upscaled by ".to_owned();
    message.append(u64_to_string(factor as u64).as_str());
    message.append("x successfully");
    FilterResult { output_path, success: true, message }
}

/// The style names the fast filter path offers.
pub fn available_ffmpeg_styles() -> (r: Vec<String>)
    ensures
        r@.len() == 8,
        r@[0]@ == "cartoon"@,
        r@[1]@ == "grayscale"@,
        r@[2]@ == "sepia"@,
        r@[3]@ == "sketch"@,
        r@[4]@ == "edge"@,
        r@[5]@ == "vintage"@,
        r@[6]@ == "dramatic"@,
        r@[7]@ == "soft"@,
{
    let mut styles: Vec<String> = Vec::new();
    styles.push("cartoon".to_owned());
    styles.push("grayscale".to_owned());
    styles.push("sepia".to_owned());
    styles.push("sketch".to_owned());
    styles.push("edge".to_owned());
    styles.push("vintage".to_owned());
    styles.push("dramatic".to_owned());
    styles.push("soft".to_owned());
    styles
}

/// The style names the slow, externally rendered path offers.
pub fn available_ai_styles() -> (r: Vec<String>)
    ensures
        r@.len() == 5,
        r@[0]@ == "toon-shade"@,
        r@[1]@ == "oil-painting"@,
        r@[2]@ == "watercolor"@,
        r@[3]@ == "cyberpunk"@,
        r@[4]@ == "retro"@,
{
    let mut styles: Vec<String> = Vec::new();
    styles.push("toon-shade".to_owned());
    styles.push("oil-painting".to_owned());
    styles.push("watercolor".to_owned());
    styles.push("cyberpunk".to_owned());
    styles.push("retro".to_owned());
    styles
}

/// The upscaling model names on offer.
pub fn available_upscale_models() -> (r: Vec<String>)
    ensures
        r@.len() == 4,
        r@[0]@ == "realesrgan"@,
        r@[1]@ == "esrgan"@,
        r@[2]@ == "waifu2x"@,
        r@[3]@ == "lanczos"@,
{
    let mut models: Vec<String> = Vec::new();
    models.push("realesrgan".to_owned());
    models.push("esrgan".to_owned());
    models.push("waifu2x".to_owned());
    models.push("lanczos".to_owned());
    models
}

/// The enhancement options on offer.
pub fn video_enhancement_options() -> (r: Vec<String>)
    ensures
        r@.len() == 5,
        r@[0]@ == "denoise"@,
        r@[1]@ == "sharpen"@,
        r@[2]@ == "color_correct"@,
        r@[3]@ == "stabilize"@,
        r@[4]@ == "remove_grain"@,
{
    let mut options: Vec<String> = Vec::new();
    options.push("denoise".to_owned());
    options.push("sharpen".to_owned());
    options.push("color_correct".to_owned());
    options.push("stabilize".to_owned());
    options.push("remove_grain".to_owned());
    options
}

} // verus!
