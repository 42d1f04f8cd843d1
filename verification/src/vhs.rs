//! The VHS look: effect parameters interpolated by intensity, the two colour
//! profiles, and the FFmpeg video filter chain built from them.

use vstd::prelude::*;
use crate::text::{
    contains, dec, fixed, fixed_side, int_str, occurs_at, pair_free, push_dec, push_fixed, push_fixed_side,
    push_int, str_eq, lemma_dec_numeric, lemma_fixed_side_numeric, lemma_int_str_numeric, lemma_labelled_avoids,
    lemma_numeric_pair_free, lemma_pair_free_concat, FIXED_ONE,
};
use crate::ties::{tie_flips, tie_flips_at, TieValue};

verus! {

/// Colour treatment of the VHS effect without scanlines.
#[derive(Clone, Copy, Debug, PartialEq, Eq, Structural)]
pub enum VhsColorProfile {
    Faded,
    Preserved,
}

/// Parameters of the VHS effect. Fields of type `i64` are fixed-point
/// values with eight decimal places (see `FIXED_ONE`).
#[derive(Clone, Copy, Debug, PartialEq, Eq, Structural)]
pub struct VhsParams {
    pub blur_radius: i64,
    pub chroma_shift: i32,
    pub rgb_shift: i32,
    pub ghost_opacity: i64,
    pub noise_strength: u32,
    pub contrast: i64,
    pub brightness: i64,
    pub saturation: i64,
    pub gamma: i64,
    pub scanline_alpha: i64,
    pub tracking_alpha: i64,
    pub tracking_height: u32,
}

/// Colour-grading parameters (fixed-point, eight decimal places).
#[derive(Clone, Copy, Debug, PartialEq, Eq, Structural)]
pub struct VhsColorParams {
    pub pre_contrast: i64,
    pub pre_brightness: i64,
    pub pre_saturation: i64,
    pub pre_gamma: i64,
    pub hue_saturation: i64,
    pub post_contrast: i64,
    pub post_brightness: i64,
    pub post_saturation: i64,
    pub post_gamma: i64,
}

/// Intensity clamped to the range 0..=100.
pub open spec fn clamp100(intensity: int) -> int {
    if intensity > 100 { 100 } else { intensity }
}

/// The parameters at clamped intensity `t` (0..=100), where `t / 100` is the
/// interpolation factor between the lightest and the most damaged look:
/// every value is `start + t/100 * span`, and the integer ones are rounded
/// half up.
pub open spec fn vhs_params_of(t: int) -> VhsParams {
    VhsParams {
        blur_radius: (35_000_000 + 1_100_000 * t) as i64,
        chroma_shift: ((150 + 5 * t) / 100) as i32,
        rgb_shift: ((150 + 3 * t) / 100) as i32,
        ghost_opacity: (10_000_000 + 220_000 * t) as i64,
        noise_strength: ((550 + 20 * t) / 100) as u32,
        contrast: (108_000_000 - 200_000 * t) as i64,
        brightness: (-1_000_000 - 25_000 * t) as i64,
        saturation: (88_000_000 - 280_000 * t) as i64,
        gamma: (102_000_000 + 80_000 * t) as i64,
        scanline_alpha: (8_000_000 + 160_000 * t) as i64,
        tracking_alpha: (5_000_000 + 130_000 * t) as i64,
        tracking_height: ((250 + 8 * t) / 100) as u32,
    }
}

/// Recognises the "preserved" colour profile; anything else is faded.
pub fn parse_vhs_color_profile(value: &str) -> (r: VhsColorProfile)
    ensures
        r == (if value@ == "preserved"@ { VhsColorProfile::Preserved } else { VhsColorProfile::Faded }),
{
    if str_eq(value, "preserved") {
        VhsColorProfile::Preserved
    } else {
        VhsColorProfile::Faded
    }
}

/// VHS parameters for an intensity; intensities above 100 act as 100.
pub fn vhs_params(intensity: u32) -> (p: VhsParams)
    ensures
        p == vhs_params_of(clamp100(intensity as int)),
{
    let t: i64 = if intensity > 100 { 100 } else { intensity as i64 };
    VhsParams {
        blur_radius: 35_000_000 + 1_100_000 * t,
        chroma_shift: ((150 + 5 * t) / 100) as i32,
        rgb_shift: ((150 + 3 * t) / 100) as i32,
        ghost_opacity: 10_000_000 + 220_000 * t,
        noise_strength: ((550 + 20 * t) / 100) as u32,
        contrast: 108_000_000 - 200_000 * t,
        brightness: -1_000_000 - 25_000 * t,
        saturation: 88_000_000 - 280_000 * t,
        gamma: 102_000_000 + 80_000 * t,
        scanline_alpha: 8_000_000 + 160_000 * t,
        tracking_alpha: 5_000_000 + 130_000 * t,
        tracking_height: ((250 + 8 * t) / 100) as u32,
    }
}

/// Ranges that every `vhs_params` result lies in.
pub open spec fn vhs_params_in_range(p: VhsParams) -> bool {
    &&& 0 <= p.rgb_shift <= 100
    &&& 0 <= p.ghost_opacity <= FIXED_ONE
    &&& 0 <= p.tracking_alpha <= FIXED_ONE
    &&& 0 <= p.blur_radius <= 10 * FIXED_ONE
    &&& p.tracking_height <= 100
    &&& p.noise_strength <= 100
}

proof fn lemma_vhs_params_in_range(t: int)
    requires
        0 <= t <= 100,
    ensures
        vhs_params_in_range(vhs_params_of(t)),
{
}

/// Colour grading of the profile, derived from the ghosting and tracking strength.
pub open spec fn vhs_color_of(p: VhsParams, profile: VhsColorProfile) -> VhsColorParams {
    let g = p.ghost_opacity as int;
    let a = p.tracking_alpha as int;
    match profile {
        VhsColorProfile::Faded => VhsColorParams {
            pre_contrast: (94_000_000 - g * 20 / 100) as i64,
            pre_brightness: (1_800_000 + a * 4 / 100) as i64,
            pre_saturation: (72_000_000 - g * 35 / 100) as i64,
            pre_gamma: (110_000_000 + g * 35 / 100) as i64,
            hue_saturation: (82_000_000 - g * 30 / 100) as i64,
            post_contrast: (88_000_000 - g * 18 / 100) as i64,
            post_brightness: (1_000_000 + a * 3 / 100) as i64,
            post_saturation: (68_000_000 - g * 25 / 100) as i64,
            post_gamma: (108_000_000 + g * 24 / 100) as i64,
        },
        VhsColorProfile::Preserved => VhsColorParams {
            pre_contrast: (99_000_000 - g * 12 / 100) as i64,
            pre_brightness: (1_200_000 + a * 25 / 1000) as i64,
            pre_saturation: (86_000_000 - g * 42 / 100) as i64,
            pre_gamma: (104_000_000 + g * 16 / 100) as i64,
            hue_saturation: (100_000_000 - g * 42 / 100) as i64,
            post_contrast: (96_000_000 - g * 10 / 100) as i64,
            post_brightness: (600_000 + a * 15 / 1000) as i64,
            post_saturation: (90_000_000 - g * 43 / 100) as i64,
            post_gamma: (103_000_000 + g * 12 / 100) as i64,
        },
    }
}

fn vhs_color_params(p: VhsParams, profile: VhsColorProfile) -> (c: VhsColorParams)
    requires
        vhs_params_in_range(p),
    ensures
        c == vhs_color_of(p, profile),
{
    let g = p.ghost_opacity;
    let a = p.tracking_alpha;
    match profile {
        VhsColorProfile::Faded => VhsColorParams {
            pre_contrast: 94_000_000 - g * 20 / 100,
            pre_brightness: 1_800_000 + a * 4 / 100,
            pre_saturation: 72_000_000 - g * 35 / 100,
            pre_gamma: 110_000_000 + g * 35 / 100,
            hue_saturation: 82_000_000 - g * 30 / 100,
            post_contrast: 88_000_000 - g * 18 / 100,
            post_brightness: 1_000_000 + a * 3 / 100,
            post_saturation: 68_000_000 - g * 25 / 100,
            post_gamma: 108_000_000 + g * 24 / 100,
        },
        VhsColorProfile::Preserved => VhsColorParams {
            pre_contrast: 99_000_000 - g * 12 / 100,
            pre_brightness: 1_200_000 + a * 25 / 1000,
            pre_saturation: 86_000_000 - g * 42 / 100,
            pre_gamma: 104_000_000 + g * 16 / 100,
            hue_saturation: 100_000_000 - g * 42 / 100,
            post_contrast: 96_000_000 - g * 10 / 100,
            post_brightness: 600_000 + a * 15 / 1000,
            post_saturation: 90_000_000 - g * 43 / 100,
            post_gamma: 103_000_000 + g * 12 / 100,
        },
    }
}

/// The brightness before the smear goes to the odd digit at its tie (see
/// `tie_flips`): only the preserved profile has such an intensity.
pub open spec fn pre_brightness_flips(profile: VhsColorProfile, ti: int) -> bool {
    profile == VhsColorProfile::Preserved && tie_flips(TieValue::PreservedPreBrightness, ti)
}

/// The brightness after the smear goes to the odd digit at its tie (see
/// `tie_flips`): only the faded profile has such an intensity.
pub open spec fn post_brightness_flips(profile: VhsColorProfile, ti: int) -> bool {
    profile == VhsColorProfile::Faded && tie_flips(TieValue::FadedPostBrightness, ti)
}

/// Two staggered tracking-glitch bands and two opposite frame skews, each
/// gated on its own cadence.
pub open spec fn tracking_distortion(p: VhsParams, ti: int) -> Seq<char> {
    let skew = 4 + p.rgb_shift * 2;
    let half_skew = if skew / 2 > 1 { skew / 2 } else { 1 };
    let secondary_tracking = p.tracking_alpha * 70 / 100;
    let secondary_height = if p.tracking_height / 2 > 1 { p.tracking_height / 2 } else { 1 };
    "drawbox=x=0:y='trunc(mod(t*61,ih))':w=iw:h="@ + dec(p.tracking_height as nat)
        + ":c=white@"@ + fixed(p.tracking_alpha as int, 2)
        + ":t=fill:enable='lt(mod(t,3.1),0.16)',drawbox=x=0:y='trunc(mod(t*83+ih/3,ih))':w=iw:h="@
        + dec(secondary_height as nat) + ":c=black@"@
        + fixed_side(secondary_tracking, 2, tie_flips(TieValue::SecondaryTracking, ti))
        + ":t=fill:enable='lt(mod(t+1.7,4.4),0.12)',perspective=x0="@ + int_str(skew)
        + ":y0=0:x1=W+"@ + int_str(skew) + ":y1=0:x2="@ + int_str(-half_skew)
        + ":y2=H:x3=W"@ + int_str(-half_skew)
        + ":y3=H:interpolation=linear:eval=init:enable='lt(mod(t,3.1),0.16)',perspective=x0="@
        + int_str(-skew) + ":y0=0:x1=W"@ + int_str(-skew) + ":y1=0:x2="@ + int_str(half_skew)
        + ":y2=H:x3=W+"@ + int_str(half_skew)
        + ":y3=H:interpolation=linear:eval=init:enable='lt(mod(t+1.7,4.4),0.12)'"@
}

fn build_tracking_distortion(p: VhsParams, ti: i64) -> (r: String)
    requires
        vhs_params_in_range(p),
    ensures
        r@ == tracking_distortion(p, ti as int),
{
    let skew: i64 = 4 + (p.rgb_shift as i64) * 2;
    let half_skew: i64 = if skew / 2 > 1 { skew / 2 } else { 1 };
    let secondary_tracking: i64 = p.tracking_alpha * 70 / 100;
    let secondary_height: u32 = if p.tracking_height / 2 > 1 { p.tracking_height / 2 } else { 1 };
    let mut s = "drawbox=x=0:y='trunc(mod(t*61,ih))':w=iw:h=".to_owned();
    push_dec(&mut s, p.tracking_height as u64);
    s.push_str(":c=white@");
    push_fixed(&mut s, p.tracking_alpha, 2);
    s.push_str(":t=fill:enable='lt(mod(t,3.1),0.16)',drawbox=x=0:y='trunc(mod(t*83+ih/3,ih))':w=iw:h=");
    push_dec(&mut s, secondary_height as u64);
    s.push_str(":c=black@");
    push_fixed_side(&mut s, secondary_tracking, 2, tie_flips_at(TieValue::SecondaryTracking, ti));
    s.push_str(":t=fill:enable='lt(mod(t+1.7,4.4),0.12)',perspective=x0=");
    push_int(&mut s, skew);
    s.push_str(":y0=0:x1=W+");
    push_int(&mut s, skew);
    s.push_str(":y1=0:x2=");
    push_int(&mut s, -half_skew);
    s.push_str(":y2=H:x3=W");
    push_int(&mut s, -half_skew);
    s.push_str(":y3=H:interpolation=linear:eval=init:enable='lt(mod(t,3.1),0.16)',perspective=x0=");
    push_int(&mut s, -skew);
    s.push_str(":y0=0:x1=W");
    push_int(&mut s, -skew);
    s.push_str(":y1=0:x2=");
    push_int(&mut s, half_skew);
    s.push_str(":y2=H:x3=W+");
    push_int(&mut s, half_skew);
    s.push_str(":y3=H:interpolation=linear:eval=init:enable='lt(mod(t+1.7,4.4),0.12)'");
    s
}

/// The first stage of both looks: a 4:3 frame of even size with square pixels.
pub open spec fn vhs_head() -> Seq<char> {
    "scale=trunc(ih*4/3/2)*2:trunc(ih/2)*2,setsar=1,"@
}

/// The grading stages of the CRT look with scanlines: blur, chroma and RGB
/// fringing, ghosting, grain, colour grading and the scanline grid.
#[verifier::opaque]
pub open spec fn vhs_scanline_grading(p: VhsParams, ti: int) -> Seq<char> {
    "boxblur=luma_radius="@
        + fixed_side(p.blur_radius as int, 2, tie_flips(TieValue::Blur, ti)) + ":luma_power=1:chroma_radius="@
        + fixed_side(p.blur_radius + 40_000_000, 2, tie_flips(TieValue::ChromaBlur, ti))
        + ":chroma_power=1,chromashift=cbh="@ + int_str(p.chroma_shift as int) + ":crh="@
        + int_str(-p.chroma_shift) + ":edge=smear,rgbashift=rh="@ + int_str(p.rgb_shift as int)
        + ":bh="@ + int_str(-p.rgb_shift) + ":edge=smear,tblend=all_mode=average:all_opacity="@
        + fixed_side(p.ghost_opacity as int, 2, tie_flips(TieValue::Ghosting, ti)) + ",noise=alls="@ + dec(p.noise_strength as nat)
        + ":allf=t+u,eq=contrast="@ + fixed(p.contrast as int, 2) + ":brightness="@
        + fixed_side(p.brightness as int, 3, tie_flips(TieValue::Brightness, ti)) + ":saturation="@ + fixed(p.saturation as int, 2)
        + ":gamma="@ + fixed(p.gamma as int, 2) + ",drawgrid=w=iw:h=2:t=1:c=black@"@
        + fixed(p.scanline_alpha as int, 2) + ","@
}

/// The stages of the CRT look with scanlines: the grading, the tracking
/// glitches and the vignette.
pub open spec fn vhs_scanline_stages(p: VhsParams, ti: int) -> Seq<char> {
    vhs_scanline_grading(p, ti) + tracking_distortion(p, ti) + ",vignette=angle=PI/5,"@
}

/// The first stages of the softer look: colour grading, hue, smear,
/// chroma fringing, lag and grain.
#[verifier::opaque]
pub open spec fn vhs_soft_grading(p: VhsParams, profile: VhsColorProfile, ti: int) -> Seq<char> {
    let c = vhs_color_of(p, profile);
    let soft_noise = if 2 + p.noise_strength / 4 < 8 { 2 + p.noise_strength / 4 } else { 8 };
    "eq=contrast="@
        + fixed(c.pre_contrast as int, 2) + ":brightness="@ + fixed_side(c.pre_brightness as int, 3, pre_brightness_flips(profile, ti))
        + ":saturation="@ + fixed(c.pre_saturation as int, 2) + ":gamma="@
        + fixed(c.pre_gamma as int, 2) + ",hue=h=-8:s="@ + fixed(c.hue_saturation as int, 2)
        + ",boxblur=luma_radius="@ + fixed_side(p.blur_radius + 100_000_000, 2, tie_flips(TieValue::SoftBlur, ti))
        + ":luma_power=1:chroma_radius="@ + fixed_side(p.blur_radius + 145_000_000, 2, tie_flips(TieValue::SoftChromaBlur, ti))
        + ":chroma_power=1,chromashift=cbh="@ + int_str(p.chroma_shift as int) + ":crh="@
        + int_str(-p.chroma_shift) + ":cbv=1:crv=-1:edge=smear,lagfun=decay="@
        + fixed(88_000_000 + p.ghost_opacity * 20 / 100, 2) + ",noise=alls="@
        + dec(soft_noise as nat) + ":allf=t:all_seed=37,"@
}

/// The last stages of the softer look: RGB fringing, a light blur, the
/// second colour grading and the vignette.
#[verifier::opaque]
pub open spec fn vhs_soft_finish(p: VhsParams, profile: VhsColorProfile, ti: int) -> Seq<char> {
    let c = vhs_color_of(p, profile);
    ",format=rgba,rgbashift=rh="@ + int_str(p.rgb_shift as int) + ":bh="@
        + int_str(-p.rgb_shift)
        + ":rv=1:bv=-1:edge=smear,boxblur=luma_radius=0.80:luma_power=1:chroma_radius=0.80:chroma_power=1,eq=contrast="@
        + fixed(c.post_contrast as int, 2) + ":brightness="@ + fixed_side(c.post_brightness as int, 3, post_brightness_flips(profile, ti))
        + ":saturation="@ + fixed(c.post_saturation as int, 2) + ":gamma="@
        + fixed(c.post_gamma as int, 2) + ",vignette=angle=PI/4,"@
}

/// The stages of the softer look without scanlines: the grading, the
/// tracking glitches and the finish.
pub open spec fn vhs_soft_stages(p: VhsParams, profile: VhsColorProfile, ti: int) -> Seq<char> {
    vhs_soft_grading(p, profile, ti) + tracking_distortion(p, ti) + vhs_soft_finish(p, profile, ti)
}

/// The VHS filter chain between its labels, at clamped intensity `ti`: the
/// head, the stages of the chosen look, and the final pixel format.
pub open spec fn vhs_body(ti: int, scanlines: bool, profile: VhsColorProfile) -> Seq<char> {
    let p = vhs_params_of(ti);
    vhs_head() + (if scanlines { vhs_scanline_stages(p, ti) } else { vhs_soft_stages(p, profile, ti) })
        + "format=yuv420p"@
}

/// The VHS filter chain from `input_label` to `output_label`.
#[verifier::opaque]
pub open spec fn vhs_chain(
    input_label: Seq<char>,
    output_label: Seq<char>,
    intensity: int,
    scanlines: bool,
    profile: VhsColorProfile,
) -> Seq<char> {
    input_label + vhs_body(clamp100(intensity), scanlines, profile) + output_label
}

fn scanline_stages(p: VhsParams, ti: i64, tracking: &str) -> (s: String)
    requires
        vhs_params_in_range(p),
        tracking@ == tracking_distortion(p, ti as int),
    ensures
        s@ == vhs_scanline_stages(p, ti as int),
{
    let mut s = String::new();
    s.push_str("boxblur=luma_radius=");
    push_fixed_side(&mut s, p.blur_radius, 2, tie_flips_at(TieValue::Blur, ti));
    s.push_str(":luma_power=1:chroma_radius=");
    push_fixed_side(&mut s, p.blur_radius + 40_000_000, 2, tie_flips_at(TieValue::ChromaBlur, ti));
    s.push_str(":chroma_power=1,chromashift=cbh=");
    push_int(&mut s, p.chroma_shift as i64);
    s.push_str(":crh=");
    push_int(&mut s, -(p.chroma_shift as i64));
    s.push_str(":edge=smear,rgbashift=rh=");
    push_int(&mut s, p.rgb_shift as i64);
    s.push_str(":bh=");
    push_int(&mut s, -(p.rgb_shift as i64));
    s.push_str(":edge=smear,tblend=all_mode=average:all_opacity=");
    push_fixed_side(&mut s, p.ghost_opacity, 2, tie_flips_at(TieValue::Ghosting, ti));
    s.push_str(",noise=alls=");
    push_dec(&mut s, p.noise_strength as u64);
    s.push_str(":allf=t+u,eq=contrast=");
    push_fixed(&mut s, p.contrast, 2);
    s.push_str(":brightness=");
    push_fixed_side(&mut s, p.brightness, 3, tie_flips_at(TieValue::Brightness, ti));
    s.push_str(":saturation=");
    push_fixed(&mut s, p.saturation, 2);
    s.push_str(":gamma=");
    push_fixed(&mut s, p.gamma, 2);
    s.push_str(",drawgrid=w=iw:h=2:t=1:c=black@");
    push_fixed(&mut s, p.scanline_alpha, 2);
    s.push_str(",");
    assert(s@ =~= vhs_scanline_grading(p, ti as int)) by {
        reveal(vhs_scanline_grading);
    }
    s.push_str(tracking);
    s.push_str(",vignette=angle=PI/5,");
    assert(s@ =~= vhs_scanline_stages(p, ti as int));
    s
}

fn soft_stages(p: VhsParams, color_profile: VhsColorProfile, ti: i64, tracking: &str) -> (s: String)
    requires
        vhs_params_in_range(p),
        tracking@ == tracking_distortion(p, ti as int),
    ensures
        s@ == vhs_soft_stages(p, color_profile, ti as int),
{
    let mut s = String::new();
    let c = vhs_color_params(p, color_profile);
    let soft_noise: u32 = if 2 + p.noise_strength / 4 < 8 { 2 + p.noise_strength / 4 } else { 8 };
    s.push_str("eq=contrast=");
    push_fixed(&mut s, c.pre_contrast, 2);
    s.push_str(":brightness=");
    let pre_flip = color_profile == VhsColorProfile::Preserved
        && tie_flips_at(TieValue::PreservedPreBrightness, ti);
    push_fixed_side(&mut s, c.pre_brightness, 3, pre_flip);
    s.push_str(":saturation=");
    push_fixed(&mut s, c.pre_saturation, 2);
    s.push_str(":gamma=");
    push_fixed(&mut s, c.pre_gamma, 2);
    s.push_str(",hue=h=-8:s=");
    push_fixed(&mut s, c.hue_saturation, 2);
    s.push_str(",boxblur=luma_radius=");
    push_fixed_side(&mut s, p.blur_radius + 100_000_000, 2, tie_flips_at(TieValue::SoftBlur, ti));
    s.push_str(":luma_power=1:chroma_radius=");
    push_fixed_side(&mut s, p.blur_radius + 145_000_000, 2, tie_flips_at(TieValue::SoftChromaBlur, ti));
    s.push_str(":chroma_power=1,chromashift=cbh=");
    push_int(&mut s, p.chroma_shift as i64);
    s.push_str(":crh=");
    push_int(&mut s, -(p.chroma_shift as i64));
    s.push_str(":cbv=1:crv=-1:edge=smear,lagfun=decay=");
    push_fixed(&mut s, 88_000_000 + p.ghost_opacity * 20 / 100, 2);
    s.push_str(",noise=alls=");
    push_dec(&mut s, soft_noise as u64);
    s.push_str(":allf=t:all_seed=37,");
    assert(s@ =~= vhs_soft_grading(p, color_profile, ti as int)) by {
        reveal(vhs_soft_grading);
    }
    s.push_str(tracking);
    let mut f = String::new();
    f.push_str(",format=rgba,rgbashift=rh=");
    push_int(&mut f, p.rgb_shift as i64);
    f.push_str(":bh=");
    push_int(&mut f, -(p.rgb_shift as i64));
    f.push_str(":rv=1:bv=-1:edge=smear,boxblur=luma_radius=0.80:luma_power=1:chroma_radius=0.80:chroma_power=1,eq=contrast=");
    push_fixed(&mut f, c.post_contrast, 2);
    f.push_str(":brightness=");
    let post_flip = color_profile == VhsColorProfile::Faded
        && tie_flips_at(TieValue::FadedPostBrightness, ti);
    push_fixed_side(&mut f, c.post_brightness, 3, post_flip);
    f.push_str(":saturation=");
    push_fixed(&mut f, c.post_saturation, 2);
    f.push_str(":gamma=");
    push_fixed(&mut f, c.post_gamma, 2);
    f.push_str(",vignette=angle=PI/4,");
    assert(f@ =~= vhs_soft_finish(p, color_profile, ti as int)) by {
        reveal(vhs_soft_finish);
    }
    s.push_str(f.as_str());
    assert(s@ =~= vhs_soft_stages(p, color_profile, ti as int));
    s
}

/// Builds the FFmpeg filter chain of the VHS effect, reading `input_label`
/// and writing `output_label`.
pub fn build_vhs_filter_chain(
    input_label: &str,
    output_label: &str,
    intensity: u32,
    scanlines: bool,
    color_profile: VhsColorProfile,
) -> (r: String)
    ensures
        r@ == vhs_chain(input_label@, output_label@, intensity as int, scanlines, color_profile),
{
    let p = vhs_params(intensity);
    proof {
        lemma_vhs_params_in_range(clamp100(intensity as int));
        reveal(vhs_chain);
    }
    let ti: i64 = if intensity > 100 { 100 } else { intensity as i64 };
    let tracking = build_tracking_distortion(p, ti);
    let s = if scanlines {
        scanline_stages(p, ti, tracking.as_str())
    } else {
        soft_stages(p, color_profile, ti, tracking.as_str())
    };
    let ghost body = vhs_body(ti as int, scanlines, color_profile);
    let mut r = input_label.to_owned();
    r.push_str("scale=trunc(ih*4/3/2)*2:trunc(ih/2)*2,setsar=1,");
    r.push_str(s.as_str());
    r.push_str("format=yuv420p");
    assert(r@ =~= input_label@ + body);
    r.push_str(output_label);
    assert(r@ == vhs_chain(input_label@, output_label@, intensity as int, scanlines, color_profile));
    r
}

/// Intensities above 100 give the same parameters as 100.
pub proof fn law_vhs_intensity_saturates(intensity: int)
    requires
        intensity >= 100,
    ensures
        vhs_params_of(clamp100(intensity)) == vhs_params_of(clamp100(100)),
{
}

/// More intensity never lessens the damage: blur, colour fringing,
/// ghosting, grain, scanlines and tracking bands grow (the rounded ones
/// never shrink), saturation drops.
pub proof fn law_vhs_damage_grows_with_intensity(a: int, b: int)
    requires
        0 <= a < b,
    ensures
        ({
            let p = vhs_params_of(clamp100(a));
            let q = vhs_params_of(clamp100(b));
            &&& a < 100 ==> q.blur_radius > p.blur_radius && q.ghost_opacity > p.ghost_opacity
                && q.scanline_alpha > p.scanline_alpha && q.tracking_alpha > p.tracking_alpha
                && q.saturation < p.saturation
            &&& q.chroma_shift >= p.chroma_shift
            &&& q.rgb_shift >= p.rgb_shift
            &&& q.noise_strength >= p.noise_strength
            &&& q.tracking_height >= p.tracking_height
        }),
{
    let ta = clamp100(a);
    let tb = clamp100(b);
    assert((150 + 5 * ta) / 100 <= (150 + 5 * tb) / 100) by (nonlinear_arith)
        requires
            0 <= ta <= tb,
    ;
    assert((150 + 3 * ta) / 100 <= (150 + 3 * tb) / 100) by (nonlinear_arith)
        requires
            0 <= ta <= tb,
    ;
    assert((550 + 20 * ta) / 100 <= (550 + 20 * tb) / 100) by (nonlinear_arith)
        requires
            0 <= ta <= tb,
    ;
    assert((250 + 8 * ta) / 100 <= (250 + 8 * tb) / 100) by (nonlinear_arith)
        requires
            0 <= ta <= tb,
    ;
}

/// At every intensity the preserved profile keeps more colour and contrast
/// than the faded one, before and after the smear, and in the hue stage,
/// and lifts gamma and brightness less.
pub proof fn law_preserved_profile_less_washed(intensity: int)
    requires
        intensity >= 0,
    ensures
        ({
            let p = vhs_params_of(clamp100(intensity));
            let faded = vhs_color_of(p, VhsColorProfile::Faded);
            let kept = vhs_color_of(p, VhsColorProfile::Preserved);
            &&& kept.pre_saturation > faded.pre_saturation
            &&& kept.hue_saturation > faded.hue_saturation
            &&& kept.post_saturation > faded.post_saturation
            &&& kept.pre_contrast > faded.pre_contrast
            &&& kept.post_contrast > faded.post_contrast
            &&& kept.pre_gamma < faded.pre_gamma
            &&& kept.post_gamma < faded.post_gamma
            &&& kept.pre_brightness < faded.pre_brightness
            &&& kept.post_brightness < faded.post_brightness
        }),
{
}



proof fn lemma_occurs_after(a: Seq<char>, b: Seq<char>)
    ensures
        occurs_at(a + b, b, a.len() as int),
{
    assert((a + b).subrange(a.len() as int, (a.len() + b.len()) as int) =~= b);
}

proof fn lemma_occurs_extend(s: Seq<char>, pat: Seq<char>, i: int, x: Seq<char>)
    requires
        occurs_at(s, pat, i),
    ensures
        occurs_at(s + x, pat, i),
{
    assert((s + x).subrange(i, i + pat.len()) =~= s.subrange(i, i + pat.len()));
}

/// With or without scanlines the VHS chain carries the tracking distortion
/// of its intensity (the glitch bands and frame skews); with scanlines it
/// also draws the scanline grid.
pub proof fn law_vhs_keeps_tracking_distortion(
    input_label: Seq<char>,
    output_label: Seq<char>,
    intensity: int,
    scanlines: bool,
    profile: VhsColorProfile,
)
    ensures
        contains(
            vhs_chain(input_label, output_label, intensity, scanlines, profile),
            tracking_distortion(vhs_params_of(clamp100(intensity)), clamp100(intensity)),
        ),
        scanlines ==> contains(
            vhs_chain(input_label, output_label, intensity, scanlines, profile),
            ",drawgrid=w=iw:h=2:t=1:c=black@"@,
        ),
{
    reveal(vhs_chain);
    let ti = clamp100(intensity);
    let p = vhs_params_of(ti);
    let t = tracking_distortion(p, ti);
    let g = if scanlines { vhs_scanline_grading(p, ti) } else { vhs_soft_grading(p, profile, ti) };
    let f = if scanlines { ",vignette=angle=PI/5,"@ } else { vhs_soft_finish(p, profile, ti) };
    let stages = g + t + f;
    let body = vhs_head() + stages + "format=yuv420p"@;
    assert(body == vhs_body(ti, scanlines, profile));
    lemma_occurs_after(g, t);
    lemma_occurs_extend(g + t, t, g.len() as int, f);
    lemma_in_chain(input_label, output_label, stages, t, g.len() as int);
    if scanlines {
        let grid = ",drawgrid=w=iw:h=2:t=1:c=black@"@;
        reveal(vhs_scanline_grading);
        let before_grid = "boxblur=luma_radius="@
            + fixed_side(p.blur_radius as int, 2, tie_flips(TieValue::Blur, ti)) + ":luma_power=1:chroma_radius="@
            + fixed_side(p.blur_radius + 40_000_000, 2, tie_flips(TieValue::ChromaBlur, ti))
            + ":chroma_power=1,chromashift=cbh="@ + int_str(p.chroma_shift as int) + ":crh="@
            + int_str(-p.chroma_shift) + ":edge=smear,rgbashift=rh="@ + int_str(p.rgb_shift as int)
            + ":bh="@ + int_str(-p.rgb_shift) + ":edge=smear,tblend=all_mode=average:all_opacity="@
            + fixed_side(p.ghost_opacity as int, 2, tie_flips(TieValue::Ghosting, ti)) + ",noise=alls="@ + dec(p.noise_strength as nat)
            + ":allf=t+u,eq=contrast="@ + fixed(p.contrast as int, 2) + ":brightness="@
            + fixed_side(p.brightness as int, 3, tie_flips(TieValue::Brightness, ti)) + ":saturation="@ + fixed(p.saturation as int, 2)
            + ":gamma="@ + fixed(p.gamma as int, 2);
        let g1 = before_grid + grid;
        let g2 = g1 + fixed(p.scanline_alpha as int, 2);
        let g3 = g2 + ","@;
        assert(g3 == g);
        let k = before_grid.len() as int;
        lemma_occurs_after(before_grid, grid);
        lemma_occurs_extend(g1, grid, k, fixed(p.scanline_alpha as int, 2));
        lemma_occurs_extend(g2, grid, k, ","@);
        lemma_occurs_extend(g, grid, k, t);
        lemma_occurs_extend(g + t, grid, k, f);
        lemma_in_chain(input_label, output_label, stages, grid, k);
    }
}

/// The labels stand only at the two ends of the VHS chain: between them is
/// the same chain for every pair of labels, with the intensity clamped to
/// 100; it starts with the scale stage and ends with the yuv420p pixel
/// format.
pub proof fn law_vhs_labels_only_at_ends(
    input_label: Seq<char>,
    output_label: Seq<char>,
    intensity: int,
    scanlines: bool,
    profile: VhsColorProfile,
)
    ensures
        ({
            let m = vhs_chain(Seq::empty(), Seq::empty(), clamp100(intensity), scanlines, profile);
            &&& vhs_chain(input_label, output_label, intensity, scanlines, profile) == input_label + m + output_label
            &&& m.len() >= 14
            &&& m.take(vhs_head().len() as int) == "scale=trunc(ih*4/3/2)*2:trunc(ih/2)*2,setsar=1,"@
            &&& m.skip(m.len() - 14) == "format=yuv420p"@
        }),
{
    reveal(vhs_chain);
    reveal_strlit("format=yuv420p");
    let ti = clamp100(intensity);
    assert(clamp100(ti) == ti);
    let body = vhs_body(ti, scanlines, profile);
    let m = vhs_chain(Seq::empty(), Seq::empty(), ti, scanlines, profile);
    assert(m =~= body);
    let h = vhs_head();
    let st = if scanlines { vhs_scanline_stages(vhs_params_of(ti), ti) } else { vhs_soft_stages(vhs_params_of(ti), profile, ti) };
    assert(body == h + st + "format=yuv420p"@);
    assert(body.take(h.len() as int) =~= h);
    assert(body.skip(body.len() - 14) =~= "format=yuv420p"@);
}

proof fn lemma_occurs_prepend(a: Seq<char>, s: Seq<char>, pat: Seq<char>, i: int)
    requires
        occurs_at(s, pat, i),
    ensures
        occurs_at(a + s, pat, a.len() + i),
{
    assert((a + s).subrange(a.len() + i, a.len() + i + pat.len()) =~= s.subrange(i, i + pat.len()));
}

proof fn lemma_in_chain(input_label: Seq<char>, output_label: Seq<char>, stages: Seq<char>, pat: Seq<char>, i: int)
    requires
        occurs_at(stages, pat, i),
    ensures
        contains(input_label + (vhs_head() + stages + "format=yuv420p"@) + output_label, pat),
{
    let h = vhs_head();
    lemma_occurs_prepend(h, stages, pat, i);
    lemma_occurs_extend(h + stages, pat, h.len() + i, "format=yuv420p"@);
    let body = h + stages + "format=yuv420p"@;
    lemma_occurs_prepend(input_label, body, pat, h.len() + i);
    lemma_occurs_extend(input_label + body, pat, input_label.len() + h.len() + i, output_label);
}

proof fn lemma_occurs_inner(s: Seq<char>, big: Seq<char>, small: Seq<char>, i: int, j: int)
    requires
        occurs_at(s, big, i),
        occurs_at(big, small, j),
    ensures
        occurs_at(s, small, i + j),
{
    assert(s.subrange(i + j, i + j + small.len()) =~= big.subrange(j, j + small.len()));
}

proof fn lemma_contains_in_chain(input_label: Seq<char>, output_label: Seq<char>, stages: Seq<char>, pat: Seq<char>)
    requires
        contains(stages, pat),
    ensures
        contains(input_label + (vhs_head() + stages + "format=yuv420p"@) + output_label, pat),
{
    let i = choose|i: int| occurs_at(stages, pat, i);
    lemma_in_chain(input_label, output_label, stages, pat, i);
}

proof fn lemma_scanline_body_parts(ti: int)
    ensures
        ({
            let p = vhs_params_of(ti);
            let body = vhs_head() + vhs_scanline_stages(p, ti) + "format=yuv420p"@;
            &&& pair_free(body, '=', 'd')
            &&& body.len() >= 14
            &&& body[0] == 's'
            &&& contains(vhs_scanline_stages(p, ti), "drawgrid="@)
            &&& contains(vhs_scanline_stages(p, ti), "tblend="@)
        }),
{
    reveal_strlit("scale=trunc(ih*4/3/2)*2:trunc(ih/2)*2,setsar=1,");
    reveal_strlit("format=yuv420p");
    reveal_strlit(",vignette=angle=PI/5,");
    let p = vhs_params_of(ti);
    let h = vhs_head();
    let fmt = "format=yuv420p"@;
    let g = vhs_scanline_grading(p, ti);
    let t = tracking_distortion(p, ti);
    let v = ",vignette=angle=PI/5,"@;
    let stages = vhs_scanline_stages(p, ti);
    assert(stages == g + t + v);
    lemma_vhs_scanline_grading_has_grid(p, ti);
    lemma_vhs_scanline_grading_has_blend(p, ti);
    let i1 = choose|i: int| occurs_at(g, "drawgrid="@, i);
    lemma_occurs_extend(g, "drawgrid="@, i1, t);
    lemma_occurs_extend(g + t, "drawgrid="@, i1, v);
    let i2 = choose|i: int| occurs_at(g, "tblend="@, i);
    lemma_occurs_extend(g, "tblend="@, i2, t);
    lemma_occurs_extend(g + t, "tblend="@, i2, v);
    lemma_vhs_scanline_grading_pair_free_eqd(p, ti);
    lemma_tracking_distortion_pair_free_eqd(p, ti);
    lemma_vhs_scanline_grading_ends(p, ti);
    lemma_tracking_distortion_ends(p, ti);
    assert(pair_free(v, '=', 'd'));
    assert(pair_free(h, '=', 'd'));
    assert(pair_free(fmt, '=', 'd'));
    lemma_pair_free_concat(g, t, '=', 'd');
    lemma_pair_free_concat(g + t, v, '=', 'd');
    lemma_pair_free_concat(h, stages, '=', 'd');
    lemma_pair_free_concat(h + stages, fmt, '=', 'd');
}

proof fn lemma_soft_body_parts(ti: int, profile: VhsColorProfile)
    ensures
        ({
            let p = vhs_params_of(ti);
            let body = vhs_head() + vhs_soft_stages(p, profile, ti) + "format=yuv420p"@;
            &&& pair_free(body, 'w', 'g')
            &&& pair_free(body, 't', 'b')
            &&& body.len() >= 14
            &&& body[0] == 's'
            &&& contains(vhs_soft_stages(p, profile, ti), "lagfun=decay="@)
        }),
{
    reveal_strlit("scale=trunc(ih*4/3/2)*2:trunc(ih/2)*2,setsar=1,");
    reveal_strlit("format=yuv420p");
    let p = vhs_params_of(ti);
    let h = vhs_head();
    let fmt = "format=yuv420p"@;
    let g = vhs_soft_grading(p, profile, ti);
    let t = tracking_distortion(p, ti);
    let f = vhs_soft_finish(p, profile, ti);
    let stages = vhs_soft_stages(p, profile, ti);
    assert(stages == g + t + f);
    lemma_vhs_soft_grading_has_lag(p, profile, ti);
    let i1 = choose|i: int| occurs_at(g, "lagfun=decay="@, i);
    lemma_occurs_extend(g, "lagfun=decay="@, i1, t);
    lemma_occurs_extend(g + t, "lagfun=decay="@, i1, f);
    lemma_vhs_soft_grading_ends(p, profile, ti);
    lemma_tracking_distortion_ends(p, ti);
    lemma_vhs_soft_finish_ends(p, profile, ti);
    lemma_vhs_soft_grading_pair_free_wg(p, profile, ti);
    lemma_tracking_distortion_pair_free_wg(p, ti);
    lemma_vhs_soft_finish_pair_free_wg(p, profile, ti);
    assert(pair_free(h, 'w', 'g'));
    assert(pair_free(fmt, 'w', 'g'));
    lemma_pair_free_concat(g, t, 'w', 'g');
    lemma_pair_free_concat(g + t, f, 'w', 'g');
    lemma_pair_free_concat(h, stages, 'w', 'g');
    lemma_pair_free_concat(h + stages, fmt, 'w', 'g');
    lemma_vhs_soft_grading_pair_free_tb(p, profile, ti);
    lemma_tracking_distortion_pair_free_tb(p, ti);
    lemma_vhs_soft_finish_pair_free_tb(p, profile, ti);
    assert(pair_free(h, 't', 'b'));
    assert(pair_free(fmt, 't', 'b'));
    lemma_pair_free_concat(g, t, 't', 'b');
    lemma_pair_free_concat(g + t, f, 't', 'b');
    lemma_pair_free_concat(h, stages, 't', 'b');
    lemma_pair_free_concat(h + stages, fmt, 't', 'b');
}

/// With pad labels that hold no '=', the scanline grid and the ghosting
/// blend appear exactly with scanlines and the lag exactly without; with
/// scanlines the colour profile changes nothing.
pub proof fn law_vhs_look_stages(
    input_label: Seq<char>,
    output_label: Seq<char>,
    intensity: int,
    scanlines: bool,
    profile: VhsColorProfile,
)
    requires
        forall|j: int| 0 <= j < input_label.len() ==> input_label[j] != '=',
        forall|j: int| 0 <= j < output_label.len() ==> output_label[j] != '=',
    ensures
        contains(vhs_chain(input_label, output_label, intensity, scanlines, profile), "drawgrid="@) == scanlines,
        contains(vhs_chain(input_label, output_label, intensity, scanlines, profile), "tblend="@) == scanlines,
        contains(vhs_chain(input_label, output_label, intensity, scanlines, profile), "lagfun=decay="@) == !scanlines,
        scanlines ==> vhs_chain(input_label, output_label, intensity, scanlines, VhsColorProfile::Faded)
            == vhs_chain(input_label, output_label, intensity, scanlines, VhsColorProfile::Preserved),
{
    reveal(vhs_chain);
    reveal_strlit("drawgrid=");
    reveal_strlit("tblend=");
    reveal_strlit("lagfun=decay=");
    let ti = clamp100(intensity);
    let p = vhs_params_of(ti);
    let fmt = "format=yuv420p"@;
    let grid = "drawgrid="@;
    let blend = "tblend="@;
    let lag = "lagfun=decay="@;
    if scanlines {
        let stages = vhs_scanline_stages(p, ti);
        lemma_scanline_body_parts(ti);
        lemma_contains_in_chain(input_label, output_label, stages, grid);
        lemma_contains_in_chain(input_label, output_label, stages, blend);
        lemma_labelled_avoids(input_label, vhs_head() + stages + fmt, output_label, lag, 6);
    } else {
        let stages = vhs_soft_stages(p, profile, ti);
        lemma_soft_body_parts(ti, profile);
        lemma_contains_in_chain(input_label, output_label, stages, lag);
        lemma_labelled_avoids(input_label, vhs_head() + stages + fmt, output_label, grid, 3);
        lemma_labelled_avoids(input_label, vhs_head() + stages + fmt, output_label, blend, 0);
    }
}

#[verifier::rlimit(60)]
proof fn lemma_tracking_distortion_pair_free_wg(p: VhsParams, ti: int)
    ensures
        pair_free(tracking_distortion(p, ti), 'w', 'g'),
{
    let skew = 4 + p.rgb_shift * 2;
    let half_skew = if skew / 2 > 1 { skew / 2 } else { 1 };
    let secondary_tracking = p.tracking_alpha * 70 / 100;
    let secondary_height = if p.tracking_height / 2 > 1 { p.tracking_height / 2 } else { 1 };
    reveal_strlit("drawbox=x=0:y='trunc(mod(t*61,ih))':w=iw:h=");
    assert(pair_free("drawbox=x=0:y='trunc(mod(t*61,ih))':w=iw:h="@, 'w', 'g'));
    let a0 = "drawbox=x=0:y='trunc(mod(t*61,ih))':w=iw:h="@;
    lemma_dec_numeric(p.tracking_height as nat);
    lemma_numeric_pair_free(dec(p.tracking_height as nat), 'w', 'g');
    lemma_pair_free_concat(a0, dec(p.tracking_height as nat), 'w', 'g');
    let a1 = a0 + dec(p.tracking_height as nat);
    reveal_strlit(":c=white@");
    assert(pair_free(":c=white@"@, 'w', 'g'));
    lemma_pair_free_concat(a1, ":c=white@"@, 'w', 'g');
    let a2 = a1 + ":c=white@"@;
    lemma_fixed_side_numeric(p.tracking_alpha as int, 2, false);
    lemma_numeric_pair_free(fixed(p.tracking_alpha as int, 2), 'w', 'g');
    lemma_pair_free_concat(a2, fixed(p.tracking_alpha as int, 2), 'w', 'g');
    let a3 = a2 + fixed(p.tracking_alpha as int, 2);
    reveal_strlit(":t=fill:enable='lt(mod(t,3.1),0.16)',drawbox=x=0:y='trunc(mod(t*83+ih/3,ih))':w=iw:h=");
    assert(pair_free(":t=fill:enable='lt(mod(t,3.1),0.16)',drawbox=x=0:y='trunc(mod(t*83+ih/3,ih))':w=iw:h="@, 'w', 'g'));
    lemma_pair_free_concat(a3, ":t=fill:enable='lt(mod(t,3.1),0.16)',drawbox=x=0:y='trunc(mod(t*83+ih/3,ih))':w=iw:h="@, 'w', 'g');
    let a4 = a3 + ":t=fill:enable='lt(mod(t,3.1),0.16)',drawbox=x=0:y='trunc(mod(t*83+ih/3,ih))':w=iw:h="@;
    lemma_dec_numeric(secondary_height as nat);
    lemma_numeric_pair_free(dec(secondary_height as nat), 'w', 'g');
    lemma_pair_free_concat(a4, dec(secondary_height as nat), 'w', 'g');
    let a5 = a4 + dec(secondary_height as nat);
    reveal_strlit(":c=black@");
    assert(pair_free(":c=black@"@, 'w', 'g'));
    lemma_pair_free_concat(a5, ":c=black@"@, 'w', 'g');
    let a6 = a5 + ":c=black@"@;
    lemma_fixed_side_numeric(secondary_tracking, 2, tie_flips(TieValue::SecondaryTracking, ti));
    lemma_numeric_pair_free(fixed_side(secondary_tracking, 2, tie_flips(TieValue::SecondaryTracking, ti)), 'w', 'g');
    lemma_pair_free_concat(a6, fixed_side(secondary_tracking, 2, tie_flips(TieValue::SecondaryTracking, ti)), 'w', 'g');
    let a7 = a6 + fixed_side(secondary_tracking, 2, tie_flips(TieValue::SecondaryTracking, ti));
    reveal_strlit(":t=fill:enable='lt(mod(t+1.7,4.4),0.12)',perspective=x0=");
    assert(pair_free(":t=fill:enable='lt(mod(t+1.7,4.4),0.12)',perspective=x0="@, 'w', 'g'));
    lemma_pair_free_concat(a7, ":t=fill:enable='lt(mod(t+1.7,4.4),0.12)',perspective=x0="@, 'w', 'g');
    let a8 = a7 + ":t=fill:enable='lt(mod(t+1.7,4.4),0.12)',perspective=x0="@;
    lemma_int_str_numeric(skew);
    lemma_numeric_pair_free(int_str(skew), 'w', 'g');
    lemma_pair_free_concat(a8, int_str(skew), 'w', 'g');
    let a9 = a8 + int_str(skew);
    reveal_strlit(":y0=0:x1=W+");
    assert(pair_free(":y0=0:x1=W+"@, 'w', 'g'));
    lemma_pair_free_concat(a9, ":y0=0:x1=W+"@, 'w', 'g');
    let a10 = a9 + ":y0=0:x1=W+"@;
    lemma_int_str_numeric(skew);
    lemma_numeric_pair_free(int_str(skew), 'w', 'g');
    lemma_pair_free_concat(a10, int_str(skew), 'w', 'g');
    let a11 = a10 + int_str(skew);
    reveal_strlit(":y1=0:x2=");
    assert(pair_free(":y1=0:x2="@, 'w', 'g'));
    lemma_pair_free_concat(a11, ":y1=0:x2="@, 'w', 'g');
    let a12 = a11 + ":y1=0:x2="@;
    lemma_int_str_numeric(-half_skew);
    lemma_numeric_pair_free(int_str(-half_skew), 'w', 'g');
    lemma_pair_free_concat(a12, int_str(-half_skew), 'w', 'g');
    let a13 = a12 + int_str(-half_skew);
    reveal_strlit(":y2=H:x3=W");
    assert(pair_free(":y2=H:x3=W"@, 'w', 'g'));
    lemma_pair_free_concat(a13, ":y2=H:x3=W"@, 'w', 'g');
    let a14 = a13 + ":y2=H:x3=W"@;
    lemma_int_str_numeric(-half_skew);
    lemma_numeric_pair_free(int_str(-half_skew), 'w', 'g');
    lemma_pair_free_concat(a14, int_str(-half_skew), 'w', 'g');
    let a15 = a14 + int_str(-half_skew);
    reveal_strlit(":y3=H:interpolation=linear:eval=init:enable='lt(mod(t,3.1),0.16)',perspective=x0=");
    assert(pair_free(":y3=H:interpolation=linear:eval=init:enable='lt(mod(t,3.1),0.16)',perspective=x0="@, 'w', 'g'));
    lemma_pair_free_concat(a15, ":y3=H:interpolation=linear:eval=init:enable='lt(mod(t,3.1),0.16)',perspective=x0="@, 'w', 'g');
    let a16 = a15 + ":y3=H:interpolation=linear:eval=init:enable='lt(mod(t,3.1),0.16)',perspective=x0="@;
    lemma_int_str_numeric(-skew);
    lemma_numeric_pair_free(int_str(-skew), 'w', 'g');
    lemma_pair_free_concat(a16, int_str(-skew), 'w', 'g');
    let a17 = a16 + int_str(-skew);
    reveal_strlit(":y0=0:x1=W");
    assert(pair_free(":y0=0:x1=W"@, 'w', 'g'));
    lemma_pair_free_concat(a17, ":y0=0:x1=W"@, 'w', 'g');
    let a18 = a17 + ":y0=0:x1=W"@;
    lemma_int_str_numeric(-skew);
    lemma_numeric_pair_free(int_str(-skew), 'w', 'g');
    lemma_pair_free_concat(a18, int_str(-skew), 'w', 'g');
    let a19 = a18 + int_str(-skew);
    reveal_strlit(":y1=0:x2=");
    assert(pair_free(":y1=0:x2="@, 'w', 'g'));
    lemma_pair_free_concat(a19, ":y1=0:x2="@, 'w', 'g');
    let a20 = a19 + ":y1=0:x2="@;
    lemma_int_str_numeric(half_skew);
    lemma_numeric_pair_free(int_str(half_skew), 'w', 'g');
    lemma_pair_free_concat(a20, int_str(half_skew), 'w', 'g');
    let a21 = a20 + int_str(half_skew);
    reveal_strlit(":y2=H:x3=W+");
    assert(pair_free(":y2=H:x3=W+"@, 'w', 'g'));
    lemma_pair_free_concat(a21, ":y2=H:x3=W+"@, 'w', 'g');
    let a22 = a21 + ":y2=H:x3=W+"@;
    lemma_int_str_numeric(half_skew);
    lemma_numeric_pair_free(int_str(half_skew), 'w', 'g');
    lemma_pair_free_concat(a22, int_str(half_skew), 'w', 'g');
    let a23 = a22 + int_str(half_skew);
    reveal_strlit(":y3=H:interpolation=linear:eval=init:enable='lt(mod(t+1.7,4.4),0.12)'");
    assert(pair_free(":y3=H:interpolation=linear:eval=init:enable='lt(mod(t+1.7,4.4),0.12)'"@, 'w', 'g'));
    lemma_pair_free_concat(a23, ":y3=H:interpolation=linear:eval=init:enable='lt(mod(t+1.7,4.4),0.12)'"@, 'w', 'g');
    let a24 = a23 + ":y3=H:interpolation=linear:eval=init:enable='lt(mod(t+1.7,4.4),0.12)'"@;
    assert(a24 == tracking_distortion(p, ti));
}

#[verifier::rlimit(60)]
proof fn lemma_tracking_distortion_pair_free_tb(p: VhsParams, ti: int)
    ensures
        pair_free(tracking_distortion(p, ti), 't', 'b'),
{
    let skew = 4 + p.rgb_shift * 2;
    let half_skew = if skew / 2 > 1 { skew / 2 } else { 1 };
    let secondary_tracking = p.tracking_alpha * 70 / 100;
    let secondary_height = if p.tracking_height / 2 > 1 { p.tracking_height / 2 } else { 1 };
    reveal_strlit("drawbox=x=0:y='trunc(mod(t*61,ih))':w=iw:h=");
    assert(pair_free("drawbox=x=0:y='trunc(mod(t*61,ih))':w=iw:h="@, 't', 'b'));
    let a0 = "drawbox=x=0:y='trunc(mod(t*61,ih))':w=iw:h="@;
    lemma_dec_numeric(p.tracking_height as nat);
    lemma_numeric_pair_free(dec(p.tracking_height as nat), 't', 'b');
    lemma_pair_free_concat(a0, dec(p.tracking_height as nat), 't', 'b');
    let a1 = a0 + dec(p.tracking_height as nat);
    reveal_strlit(":c=white@");
    assert(pair_free(":c=white@"@, 't', 'b'));
    lemma_pair_free_concat(a1, ":c=white@"@, 't', 'b');
    let a2 = a1 + ":c=white@"@;
    lemma_fixed_side_numeric(p.tracking_alpha as int, 2, false);
    lemma_numeric_pair_free(fixed(p.tracking_alpha as int, 2), 't', 'b');
    lemma_pair_free_concat(a2, fixed(p.tracking_alpha as int, 2), 't', 'b');
    let a3 = a2 + fixed(p.tracking_alpha as int, 2);
    reveal_strlit(":t=fill:enable='lt(mod(t,3.1),0.16)',drawbox=x=0:y='trunc(mod(t*83+ih/3,ih))':w=iw:h=");
    assert(pair_free(":t=fill:enable='lt(mod(t,3.1),0.16)',drawbox=x=0:y='trunc(mod(t*83+ih/3,ih))':w=iw:h="@, 't', 'b'));
    lemma_pair_free_concat(a3, ":t=fill:enable='lt(mod(t,3.1),0.16)',drawbox=x=0:y='trunc(mod(t*83+ih/3,ih))':w=iw:h="@, 't', 'b');
    let a4 = a3 + ":t=fill:enable='lt(mod(t,3.1),0.16)',drawbox=x=0:y='trunc(mod(t*83+ih/3,ih))':w=iw:h="@;
    lemma_dec_numeric(secondary_height as nat);
    lemma_numeric_pair_free(dec(secondary_height as nat), 't', 'b');
    lemma_pair_free_concat(a4, dec(secondary_height as nat), 't', 'b');
    let a5 = a4 + dec(secondary_height as nat);
    reveal_strlit(":c=black@");
    assert(pair_free(":c=black@"@, 't', 'b'));
    lemma_pair_free_concat(a5, ":c=black@"@, 't', 'b');
    let a6 = a5 + ":c=black@"@;
    lemma_fixed_side_numeric(secondary_tracking, 2, tie_flips(TieValue::SecondaryTracking, ti));
    lemma_numeric_pair_free(fixed_side(secondary_tracking, 2, tie_flips(TieValue::SecondaryTracking, ti)), 't', 'b');
    lemma_pair_free_concat(a6, fixed_side(secondary_tracking, 2, tie_flips(TieValue::SecondaryTracking, ti)), 't', 'b');
    let a7 = a6 + fixed_side(secondary_tracking, 2, tie_flips(TieValue::SecondaryTracking, ti));
    reveal_strlit(":t=fill:enable='lt(mod(t+1.7,4.4),0.12)',perspective=x0=");
    assert(pair_free(":t=fill:enable='lt(mod(t+1.7,4.4),0.12)',perspective=x0="@, 't', 'b'));
    lemma_pair_free_concat(a7, ":t=fill:enable='lt(mod(t+1.7,4.4),0.12)',perspective=x0="@, 't', 'b');
    let a8 = a7 + ":t=fill:enable='lt(mod(t+1.7,4.4),0.12)',perspective=x0="@;
    lemma_int_str_numeric(skew);
    lemma_numeric_pair_free(int_str(skew), 't', 'b');
    lemma_pair_free_concat(a8, int_str(skew), 't', 'b');
    let a9 = a8 + int_str(skew);
    reveal_strlit(":y0=0:x1=W+");
    assert(pair_free(":y0=0:x1=W+"@, 't', 'b'));
    lemma_pair_free_concat(a9, ":y0=0:x1=W+"@, 't', 'b');
    let a10 = a9 + ":y0=0:x1=W+"@;
    lemma_int_str_numeric(skew);
    lemma_numeric_pair_free(int_str(skew), 't', 'b');
    lemma_pair_free_concat(a10, int_str(skew), 't', 'b');
    let a11 = a10 + int_str(skew);
    reveal_strlit(":y1=0:x2=");
    assert(pair_free(":y1=0:x2="@, 't', 'b'));
    lemma_pair_free_concat(a11, ":y1=0:x2="@, 't', 'b');
    let a12 = a11 + ":y1=0:x2="@;
    lemma_int_str_numeric(-half_skew);
    lemma_numeric_pair_free(int_str(-half_skew), 't', 'b');
    lemma_pair_free_concat(a12, int_str(-half_skew), 't', 'b');
    let a13 = a12 + int_str(-half_skew);
    reveal_strlit(":y2=H:x3=W");
    assert(pair_free(":y2=H:x3=W"@, 't', 'b'));
    lemma_pair_free_concat(a13, ":y2=H:x3=W"@, 't', 'b');
    let a14 = a13 + ":y2=H:x3=W"@;
    lemma_int_str_numeric(-half_skew);
    lemma_numeric_pair_free(int_str(-half_skew), 't', 'b');
    lemma_pair_free_concat(a14, int_str(-half_skew), 't', 'b');
    let a15 = a14 + int_str(-half_skew);
    reveal_strlit(":y3=H:interpolation=linear:eval=init:enable='lt(mod(t,3.1),0.16)',perspective=x0=");
    assert(pair_free(":y3=H:interpolation=linear:eval=init:enable='lt(mod(t,3.1),0.16)',perspective=x0="@, 't', 'b'));
    lemma_pair_free_concat(a15, ":y3=H:interpolation=linear:eval=init:enable='lt(mod(t,3.1),0.16)',perspective=x0="@, 't', 'b');
    let a16 = a15 + ":y3=H:interpolation=linear:eval=init:enable='lt(mod(t,3.1),0.16)',perspective=x0="@;
    lemma_int_str_numeric(-skew);
    lemma_numeric_pair_free(int_str(-skew), 't', 'b');
    lemma_pair_free_concat(a16, int_str(-skew), 't', 'b');
    let a17 = a16 + int_str(-skew);
    reveal_strlit(":y0=0:x1=W");
    assert(pair_free(":y0=0:x1=W"@, 't', 'b'));
    lemma_pair_free_concat(a17, ":y0=0:x1=W"@, 't', 'b');
    let a18 = a17 + ":y0=0:x1=W"@;
    lemma_int_str_numeric(-skew);
    lemma_numeric_pair_free(int_str(-skew), 't', 'b');
    lemma_pair_free_concat(a18, int_str(-skew), 't', 'b');
    let a19 = a18 + int_str(-skew);
    reveal_strlit(":y1=0:x2=");
    assert(pair_free(":y1=0:x2="@, 't', 'b'));
    lemma_pair_free_concat(a19, ":y1=0:x2="@, 't', 'b');
    let a20 = a19 + ":y1=0:x2="@;
    lemma_int_str_numeric(half_skew);
    lemma_numeric_pair_free(int_str(half_skew), 't', 'b');
    lemma_pair_free_concat(a20, int_str(half_skew), 't', 'b');
    let a21 = a20 + int_str(half_skew);
    reveal_strlit(":y2=H:x3=W+");
    assert(pair_free(":y2=H:x3=W+"@, 't', 'b'));
    lemma_pair_free_concat(a21, ":y2=H:x3=W+"@, 't', 'b');
    let a22 = a21 + ":y2=H:x3=W+"@;
    lemma_int_str_numeric(half_skew);
    lemma_numeric_pair_free(int_str(half_skew), 't', 'b');
    lemma_pair_free_concat(a22, int_str(half_skew), 't', 'b');
    let a23 = a22 + int_str(half_skew);
    reveal_strlit(":y3=H:interpolation=linear:eval=init:enable='lt(mod(t+1.7,4.4),0.12)'");
    assert(pair_free(":y3=H:interpolation=linear:eval=init:enable='lt(mod(t+1.7,4.4),0.12)'"@, 't', 'b'));
    lemma_pair_free_concat(a23, ":y3=H:interpolation=linear:eval=init:enable='lt(mod(t+1.7,4.4),0.12)'"@, 't', 'b');
    let a24 = a23 + ":y3=H:interpolation=linear:eval=init:enable='lt(mod(t+1.7,4.4),0.12)'"@;
    assert(a24 == tracking_distortion(p, ti));
}

#[verifier::rlimit(60)]
proof fn lemma_tracking_distortion_pair_free_eqd(p: VhsParams, ti: int)
    ensures
        pair_free(tracking_distortion(p, ti), '=', 'd'),
{
    let skew = 4 + p.rgb_shift * 2;
    let half_skew = if skew / 2 > 1 { skew / 2 } else { 1 };
    let secondary_tracking = p.tracking_alpha * 70 / 100;
    let secondary_height = if p.tracking_height / 2 > 1 { p.tracking_height / 2 } else { 1 };
    reveal_strlit("drawbox=x=0:y='trunc(mod(t*61,ih))':w=iw:h=");
    assert(pair_free("drawbox=x=0:y='trunc(mod(t*61,ih))':w=iw:h="@, '=', 'd'));
    let a0 = "drawbox=x=0:y='trunc(mod(t*61,ih))':w=iw:h="@;
    lemma_dec_numeric(p.tracking_height as nat);
    lemma_numeric_pair_free(dec(p.tracking_height as nat), '=', 'd');
    lemma_pair_free_concat(a0, dec(p.tracking_height as nat), '=', 'd');
    let a1 = a0 + dec(p.tracking_height as nat);
    reveal_strlit(":c=white@");
    assert(pair_free(":c=white@"@, '=', 'd'));
    lemma_pair_free_concat(a1, ":c=white@"@, '=', 'd');
    let a2 = a1 + ":c=white@"@;
    lemma_fixed_side_numeric(p.tracking_alpha as int, 2, false);
    lemma_numeric_pair_free(fixed(p.tracking_alpha as int, 2), '=', 'd');
    lemma_pair_free_concat(a2, fixed(p.tracking_alpha as int, 2), '=', 'd');
    let a3 = a2 + fixed(p.tracking_alpha as int, 2);
    reveal_strlit(":t=fill:enable='lt(mod(t,3.1),0.16)',drawbox=x=0:y='trunc(mod(t*83+ih/3,ih))':w=iw:h=");
    assert(pair_free(":t=fill:enable='lt(mod(t,3.1),0.16)',drawbox=x=0:y='trunc(mod(t*83+ih/3,ih))':w=iw:h="@, '=', 'd'));
    lemma_pair_free_concat(a3, ":t=fill:enable='lt(mod(t,3.1),0.16)',drawbox=x=0:y='trunc(mod(t*83+ih/3,ih))':w=iw:h="@, '=', 'd');
    let a4 = a3 + ":t=fill:enable='lt(mod(t,3.1),0.16)',drawbox=x=0:y='trunc(mod(t*83+ih/3,ih))':w=iw:h="@;
    lemma_dec_numeric(secondary_height as nat);
    lemma_numeric_pair_free(dec(secondary_height as nat), '=', 'd');
    lemma_pair_free_concat(a4, dec(secondary_height as nat), '=', 'd');
    let a5 = a4 + dec(secondary_height as nat);
    reveal_strlit(":c=black@");
    assert(pair_free(":c=black@"@, '=', 'd'));
    lemma_pair_free_concat(a5, ":c=black@"@, '=', 'd');
    let a6 = a5 + ":c=black@"@;
    lemma_fixed_side_numeric(secondary_tracking, 2, tie_flips(TieValue::SecondaryTracking, ti));
    lemma_numeric_pair_free(fixed_side(secondary_tracking, 2, tie_flips(TieValue::SecondaryTracking, ti)), '=', 'd');
    lemma_pair_free_concat(a6, fixed_side(secondary_tracking, 2, tie_flips(TieValue::SecondaryTracking, ti)), '=', 'd');
    let a7 = a6 + fixed_side(secondary_tracking, 2, tie_flips(TieValue::SecondaryTracking, ti));
    reveal_strlit(":t=fill:enable='lt(mod(t+1.7,4.4),0.12)',perspective=x0=");
    assert(pair_free(":t=fill:enable='lt(mod(t+1.7,4.4),0.12)',perspective=x0="@, '=', 'd'));
    lemma_pair_free_concat(a7, ":t=fill:enable='lt(mod(t+1.7,4.4),0.12)',perspective=x0="@, '=', 'd');
    let a8 = a7 + ":t=fill:enable='lt(mod(t+1.7,4.4),0.12)',perspective=x0="@;
    lemma_int_str_numeric(skew);
    lemma_numeric_pair_free(int_str(skew), '=', 'd');
    lemma_pair_free_concat(a8, int_str(skew), '=', 'd');
    let a9 = a8 + int_str(skew);
    reveal_strlit(":y0=0:x1=W+");
    assert(pair_free(":y0=0:x1=W+"@, '=', 'd'));
    lemma_pair_free_concat(a9, ":y0=0:x1=W+"@, '=', 'd');
    let a10 = a9 + ":y0=0:x1=W+"@;
    lemma_int_str_numeric(skew);
    lemma_numeric_pair_free(int_str(skew), '=', 'd');
    lemma_pair_free_concat(a10, int_str(skew), '=', 'd');
    let a11 = a10 + int_str(skew);
    reveal_strlit(":y1=0:x2=");
    assert(pair_free(":y1=0:x2="@, '=', 'd'));
    lemma_pair_free_concat(a11, ":y1=0:x2="@, '=', 'd');
    let a12 = a11 + ":y1=0:x2="@;
    lemma_int_str_numeric(-half_skew);
    lemma_numeric_pair_free(int_str(-half_skew), '=', 'd');
    lemma_pair_free_concat(a12, int_str(-half_skew), '=', 'd');
    let a13 = a12 + int_str(-half_skew);
    reveal_strlit(":y2=H:x3=W");
    assert(pair_free(":y2=H:x3=W"@, '=', 'd'));
    lemma_pair_free_concat(a13, ":y2=H:x3=W"@, '=', 'd');
    let a14 = a13 + ":y2=H:x3=W"@;
    lemma_int_str_numeric(-half_skew);
    lemma_numeric_pair_free(int_str(-half_skew), '=', 'd');
    lemma_pair_free_concat(a14, int_str(-half_skew), '=', 'd');
    let a15 = a14 + int_str(-half_skew);
    reveal_strlit(":y3=H:interpolation=linear:eval=init:enable='lt(mod(t,3.1),0.16)',perspective=x0=");
    assert(pair_free(":y3=H:interpolation=linear:eval=init:enable='lt(mod(t,3.1),0.16)',perspective=x0="@, '=', 'd'));
    lemma_pair_free_concat(a15, ":y3=H:interpolation=linear:eval=init:enable='lt(mod(t,3.1),0.16)',perspective=x0="@, '=', 'd');
    let a16 = a15 + ":y3=H:interpolation=linear:eval=init:enable='lt(mod(t,3.1),0.16)',perspective=x0="@;
    lemma_int_str_numeric(-skew);
    lemma_numeric_pair_free(int_str(-skew), '=', 'd');
    lemma_pair_free_concat(a16, int_str(-skew), '=', 'd');
    let a17 = a16 + int_str(-skew);
    reveal_strlit(":y0=0:x1=W");
    assert(pair_free(":y0=0:x1=W"@, '=', 'd'));
    lemma_pair_free_concat(a17, ":y0=0:x1=W"@, '=', 'd');
    let a18 = a17 + ":y0=0:x1=W"@;
    lemma_int_str_numeric(-skew);
    lemma_numeric_pair_free(int_str(-skew), '=', 'd');
    lemma_pair_free_concat(a18, int_str(-skew), '=', 'd');
    let a19 = a18 + int_str(-skew);
    reveal_strlit(":y1=0:x2=");
    assert(pair_free(":y1=0:x2="@, '=', 'd'));
    lemma_pair_free_concat(a19, ":y1=0:x2="@, '=', 'd');
    let a20 = a19 + ":y1=0:x2="@;
    lemma_int_str_numeric(half_skew);
    lemma_numeric_pair_free(int_str(half_skew), '=', 'd');
    lemma_pair_free_concat(a20, int_str(half_skew), '=', 'd');
    let a21 = a20 + int_str(half_skew);
    reveal_strlit(":y2=H:x3=W+");
    assert(pair_free(":y2=H:x3=W+"@, '=', 'd'));
    lemma_pair_free_concat(a21, ":y2=H:x3=W+"@, '=', 'd');
    let a22 = a21 + ":y2=H:x3=W+"@;
    lemma_int_str_numeric(half_skew);
    lemma_numeric_pair_free(int_str(half_skew), '=', 'd');
    lemma_pair_free_concat(a22, int_str(half_skew), '=', 'd');
    let a23 = a22 + int_str(half_skew);
    reveal_strlit(":y3=H:interpolation=linear:eval=init:enable='lt(mod(t+1.7,4.4),0.12)'");
    assert(pair_free(":y3=H:interpolation=linear:eval=init:enable='lt(mod(t+1.7,4.4),0.12)'"@, '=', 'd'));
    lemma_pair_free_concat(a23, ":y3=H:interpolation=linear:eval=init:enable='lt(mod(t+1.7,4.4),0.12)'"@, '=', 'd');
    let a24 = a23 + ":y3=H:interpolation=linear:eval=init:enable='lt(mod(t+1.7,4.4),0.12)'"@;
    assert(a24 == tracking_distortion(p, ti));
}

#[verifier::rlimit(60)]
proof fn lemma_vhs_soft_grading_pair_free_wg(p: VhsParams, profile: VhsColorProfile, ti: int)
    ensures
        pair_free(vhs_soft_grading(p, profile, ti), 'w', 'g'),
{
    reveal(vhs_soft_grading);
    let c = vhs_color_of(p, profile);
    let soft_noise = if 2 + p.noise_strength / 4 < 8 { 2 + p.noise_strength / 4 } else { 8 };
    reveal_strlit("eq=contrast=");
    assert(pair_free("eq=contrast="@, 'w', 'g'));
    let a0 = "eq=contrast="@;
    lemma_fixed_side_numeric(c.pre_contrast as int, 2, false);
    lemma_numeric_pair_free(fixed(c.pre_contrast as int, 2), 'w', 'g');
    lemma_pair_free_concat(a0, fixed(c.pre_contrast as int, 2), 'w', 'g');
    let a1 = a0 + fixed(c.pre_contrast as int, 2);
    reveal_strlit(":brightness=");
    assert(pair_free(":brightness="@, 'w', 'g'));
    lemma_pair_free_concat(a1, ":brightness="@, 'w', 'g');
    let a2 = a1 + ":brightness="@;
    lemma_fixed_side_numeric(c.pre_brightness as int, 3, pre_brightness_flips(profile, ti));
    lemma_numeric_pair_free(fixed_side(c.pre_brightness as int, 3, pre_brightness_flips(profile, ti)), 'w', 'g');
    lemma_pair_free_concat(a2, fixed_side(c.pre_brightness as int, 3, pre_brightness_flips(profile, ti)), 'w', 'g');
    let a3 = a2 + fixed_side(c.pre_brightness as int, 3, pre_brightness_flips(profile, ti));
    reveal_strlit(":saturation=");
    assert(pair_free(":saturation="@, 'w', 'g'));
    lemma_pair_free_concat(a3, ":saturation="@, 'w', 'g');
    let a4 = a3 + ":saturation="@;
    lemma_fixed_side_numeric(c.pre_saturation as int, 2, false);
    lemma_numeric_pair_free(fixed(c.pre_saturation as int, 2), 'w', 'g');
    lemma_pair_free_concat(a4, fixed(c.pre_saturation as int, 2), 'w', 'g');
    let a5 = a4 + fixed(c.pre_saturation as int, 2);
    reveal_strlit(":gamma=");
    assert(pair_free(":gamma="@, 'w', 'g'));
    lemma_pair_free_concat(a5, ":gamma="@, 'w', 'g');
    let a6 = a5 + ":gamma="@;
    lemma_fixed_side_numeric(c.pre_gamma as int, 2, false);
    lemma_numeric_pair_free(fixed(c.pre_gamma as int, 2), 'w', 'g');
    lemma_pair_free_concat(a6, fixed(c.pre_gamma as int, 2), 'w', 'g');
    let a7 = a6 + fixed(c.pre_gamma as int, 2);
    reveal_strlit(",hue=h=-8:s=");
    assert(pair_free(",hue=h=-8:s="@, 'w', 'g'));
    lemma_pair_free_concat(a7, ",hue=h=-8:s="@, 'w', 'g');
    let a8 = a7 + ",hue=h=-8:s="@;
    lemma_fixed_side_numeric(c.hue_saturation as int, 2, false);
    lemma_numeric_pair_free(fixed(c.hue_saturation as int, 2), 'w', 'g');
    lemma_pair_free_concat(a8, fixed(c.hue_saturation as int, 2), 'w', 'g');
    let a9 = a8 + fixed(c.hue_saturation as int, 2);
    reveal_strlit(",boxblur=luma_radius=");
    assert(pair_free(",boxblur=luma_radius="@, 'w', 'g'));
    lemma_pair_free_concat(a9, ",boxblur=luma_radius="@, 'w', 'g');
    let a10 = a9 + ",boxblur=luma_radius="@;
    lemma_fixed_side_numeric(p.blur_radius + 100_000_000, 2, tie_flips(TieValue::SoftBlur, ti));
    lemma_numeric_pair_free(fixed_side(p.blur_radius + 100_000_000, 2, tie_flips(TieValue::SoftBlur, ti)), 'w', 'g');
    lemma_pair_free_concat(a10, fixed_side(p.blur_radius + 100_000_000, 2, tie_flips(TieValue::SoftBlur, ti)), 'w', 'g');
    let a11 = a10 + fixed_side(p.blur_radius + 100_000_000, 2, tie_flips(TieValue::SoftBlur, ti));
    reveal_strlit(":luma_power=1:chroma_radius=");
    assert(pair_free(":luma_power=1:chroma_radius="@, 'w', 'g'));
    lemma_pair_free_concat(a11, ":luma_power=1:chroma_radius="@, 'w', 'g');
    let a12 = a11 + ":luma_power=1:chroma_radius="@;
    lemma_fixed_side_numeric(p.blur_radius + 145_000_000, 2, tie_flips(TieValue::SoftChromaBlur, ti));
    lemma_numeric_pair_free(fixed_side(p.blur_radius + 145_000_000, 2, tie_flips(TieValue::SoftChromaBlur, ti)), 'w', 'g');
    lemma_pair_free_concat(a12, fixed_side(p.blur_radius + 145_000_000, 2, tie_flips(TieValue::SoftChromaBlur, ti)), 'w', 'g');
    let a13 = a12 + fixed_side(p.blur_radius + 145_000_000, 2, tie_flips(TieValue::SoftChromaBlur, ti));
    reveal_strlit(":chroma_power=1,chromashift=cbh=");
    assert(pair_free(":chroma_power=1,chromashift=cbh="@, 'w', 'g'));
    lemma_pair_free_concat(a13, ":chroma_power=1,chromashift=cbh="@, 'w', 'g');
    let a14 = a13 + ":chroma_power=1,chromashift=cbh="@;
    lemma_int_str_numeric(p.chroma_shift as int);
    lemma_numeric_pair_free(int_str(p.chroma_shift as int), 'w', 'g');
    lemma_pair_free_concat(a14, int_str(p.chroma_shift as int), 'w', 'g');
    let a15 = a14 + int_str(p.chroma_shift as int);
    reveal_strlit(":crh=");
    assert(pair_free(":crh="@, 'w', 'g'));
    lemma_pair_free_concat(a15, ":crh="@, 'w', 'g');
    let a16 = a15 + ":crh="@;
    lemma_int_str_numeric(-p.chroma_shift);
    lemma_numeric_pair_free(int_str(-p.chroma_shift), 'w', 'g');
    lemma_pair_free_concat(a16, int_str(-p.chroma_shift), 'w', 'g');
    let a17 = a16 + int_str(-p.chroma_shift);
    reveal_strlit(":cbv=1:crv=-1:edge=smear,lagfun=decay=");
    assert(pair_free(":cbv=1:crv=-1:edge=smear,lagfun=decay="@, 'w', 'g'));
    lemma_pair_free_concat(a17, ":cbv=1:crv=-1:edge=smear,lagfun=decay="@, 'w', 'g');
    let a18 = a17 + ":cbv=1:crv=-1:edge=smear,lagfun=decay="@;
    lemma_fixed_side_numeric(88_000_000 + p.ghost_opacity * 20 / 100, 2, false);
    lemma_numeric_pair_free(fixed(88_000_000 + p.ghost_opacity * 20 / 100, 2), 'w', 'g');
    lemma_pair_free_concat(a18, fixed(88_000_000 + p.ghost_opacity * 20 / 100, 2), 'w', 'g');
    let a19 = a18 + fixed(88_000_000 + p.ghost_opacity * 20 / 100, 2);
    reveal_strlit(",noise=alls=");
    assert(pair_free(",noise=alls="@, 'w', 'g'));
    lemma_pair_free_concat(a19, ",noise=alls="@, 'w', 'g');
    let a20 = a19 + ",noise=alls="@;
    lemma_dec_numeric(soft_noise as nat);
    lemma_numeric_pair_free(dec(soft_noise as nat), 'w', 'g');
    lemma_pair_free_concat(a20, dec(soft_noise as nat), 'w', 'g');
    let a21 = a20 + dec(soft_noise as nat);
    reveal_strlit(":allf=t:all_seed=37,");
    assert(pair_free(":allf=t:all_seed=37,"@, 'w', 'g'));
    lemma_pair_free_concat(a21, ":allf=t:all_seed=37,"@, 'w', 'g');
    let a22 = a21 + ":allf=t:all_seed=37,"@;
    assert(a22 == vhs_soft_grading(p, profile, ti));
}

#[verifier::rlimit(60)]
proof fn lemma_vhs_soft_finish_pair_free_wg(p: VhsParams, profile: VhsColorProfile, ti: int)
    ensures
        pair_free(vhs_soft_finish(p, profile, ti), 'w', 'g'),
{
    reveal(vhs_soft_finish);
    let c = vhs_color_of(p, profile);
    reveal_strlit(",format=rgba,rgbashift=rh=");
    assert(pair_free(",format=rgba,rgbashift=rh="@, 'w', 'g'));
    let a0 = ",format=rgba,rgbashift=rh="@;
    lemma_int_str_numeric(p.rgb_shift as int);
    lemma_numeric_pair_free(int_str(p.rgb_shift as int), 'w', 'g');
    lemma_pair_free_concat(a0, int_str(p.rgb_shift as int), 'w', 'g');
    let a1 = a0 + int_str(p.rgb_shift as int);
    reveal_strlit(":bh=");
    assert(pair_free(":bh="@, 'w', 'g'));
    lemma_pair_free_concat(a1, ":bh="@, 'w', 'g');
    let a2 = a1 + ":bh="@;
    lemma_int_str_numeric(-p.rgb_shift);
    lemma_numeric_pair_free(int_str(-p.rgb_shift), 'w', 'g');
    lemma_pair_free_concat(a2, int_str(-p.rgb_shift), 'w', 'g');
    let a3 = a2 + int_str(-p.rgb_shift);
    reveal_strlit(":rv=1:bv=-1:edge=smear,boxblur=luma_radius=0.80:luma_power=1:chroma_radius=0.80:chroma_power=1,eq=contrast=");
    assert(pair_free(":rv=1:bv=-1:edge=smear,boxblur=luma_radius=0.80:luma_power=1:chroma_radius=0.80:chroma_power=1,eq=contrast="@, 'w', 'g'));
    lemma_pair_free_concat(a3, ":rv=1:bv=-1:edge=smear,boxblur=luma_radius=0.80:luma_power=1:chroma_radius=0.80:chroma_power=1,eq=contrast="@, 'w', 'g');
    let a4 = a3 + ":rv=1:bv=-1:edge=smear,boxblur=luma_radius=0.80:luma_power=1:chroma_radius=0.80:chroma_power=1,eq=contrast="@;
    lemma_fixed_side_numeric(c.post_contrast as int, 2, false);
    lemma_numeric_pair_free(fixed(c.post_contrast as int, 2), 'w', 'g');
    lemma_pair_free_concat(a4, fixed(c.post_contrast as int, 2), 'w', 'g');
    let a5 = a4 + fixed(c.post_contrast as int, 2);
    reveal_strlit(":brightness=");
    assert(pair_free(":brightness="@, 'w', 'g'));
    lemma_pair_free_concat(a5, ":brightness="@, 'w', 'g');
    let a6 = a5 + ":brightness="@;
    lemma_fixed_side_numeric(c.post_brightness as int, 3, post_brightness_flips(profile, ti));
    lemma_numeric_pair_free(fixed_side(c.post_brightness as int, 3, post_brightness_flips(profile, ti)), 'w', 'g');
    lemma_pair_free_concat(a6, fixed_side(c.post_brightness as int, 3, post_brightness_flips(profile, ti)), 'w', 'g');
    let a7 = a6 + fixed_side(c.post_brightness as int, 3, post_brightness_flips(profile, ti));
    reveal_strlit(":saturation=");
    assert(pair_free(":saturation="@, 'w', 'g'));
    lemma_pair_free_concat(a7, ":saturation="@, 'w', 'g');
    let a8 = a7 + ":saturation="@;
    lemma_fixed_side_numeric(c.post_saturation as int, 2, false);
    lemma_numeric_pair_free(fixed(c.post_saturation as int, 2), 'w', 'g');
    lemma_pair_free_concat(a8, fixed(c.post_saturation as int, 2), 'w', 'g');
    let a9 = a8 + fixed(c.post_saturation as int, 2);
    reveal_strlit(":gamma=");
    assert(pair_free(":gamma="@, 'w', 'g'));
    lemma_pair_free_concat(a9, ":gamma="@, 'w', 'g');
    let a10 = a9 + ":gamma="@;
    lemma_fixed_side_numeric(c.post_gamma as int, 2, false);
    lemma_numeric_pair_free(fixed(c.post_gamma as int, 2), 'w', 'g');
    lemma_pair_free_concat(a10, fixed(c.post_gamma as int, 2), 'w', 'g');
    let a11 = a10 + fixed(c.post_gamma as int, 2);
    reveal_strlit(",vignette=angle=PI/4,");
    assert(pair_free(",vignette=angle=PI/4,"@, 'w', 'g'));
    lemma_pair_free_concat(a11, ",vignette=angle=PI/4,"@, 'w', 'g');
    let a12 = a11 + ",vignette=angle=PI/4,"@;
    assert(a12 == vhs_soft_finish(p, profile, ti));
}

#[verifier::rlimit(60)]
proof fn lemma_vhs_soft_grading_pair_free_tb(p: VhsParams, profile: VhsColorProfile, ti: int)
    ensures
        pair_free(vhs_soft_grading(p, profile, ti), 't', 'b'),
{
    reveal(vhs_soft_grading);
    let c = vhs_color_of(p, profile);
    let soft_noise = if 2 + p.noise_strength / 4 < 8 { 2 + p.noise_strength / 4 } else { 8 };
    reveal_strlit("eq=contrast=");
    assert(pair_free("eq=contrast="@, 't', 'b'));
    let a0 = "eq=contrast="@;
    lemma_fixed_side_numeric(c.pre_contrast as int, 2, false);
    lemma_numeric_pair_free(fixed(c.pre_contrast as int, 2), 't', 'b');
    lemma_pair_free_concat(a0, fixed(c.pre_contrast as int, 2), 't', 'b');
    let a1 = a0 + fixed(c.pre_contrast as int, 2);
    reveal_strlit(":brightness=");
    assert(pair_free(":brightness="@, 't', 'b'));
    lemma_pair_free_concat(a1, ":brightness="@, 't', 'b');
    let a2 = a1 + ":brightness="@;
    lemma_fixed_side_numeric(c.pre_brightness as int, 3, pre_brightness_flips(profile, ti));
    lemma_numeric_pair_free(fixed_side(c.pre_brightness as int, 3, pre_brightness_flips(profile, ti)), 't', 'b');
    lemma_pair_free_concat(a2, fixed_side(c.pre_brightness as int, 3, pre_brightness_flips(profile, ti)), 't', 'b');
    let a3 = a2 + fixed_side(c.pre_brightness as int, 3, pre_brightness_flips(profile, ti));
    reveal_strlit(":saturation=");
    assert(pair_free(":saturation="@, 't', 'b'));
    lemma_pair_free_concat(a3, ":saturation="@, 't', 'b');
    let a4 = a3 + ":saturation="@;
    lemma_fixed_side_numeric(c.pre_saturation as int, 2, false);
    lemma_numeric_pair_free(fixed(c.pre_saturation as int, 2), 't', 'b');
    lemma_pair_free_concat(a4, fixed(c.pre_saturation as int, 2), 't', 'b');
    let a5 = a4 + fixed(c.pre_saturation as int, 2);
    reveal_strlit(":gamma=");
    assert(pair_free(":gamma="@, 't', 'b'));
    lemma_pair_free_concat(a5, ":gamma="@, 't', 'b');
    let a6 = a5 + ":gamma="@;
    lemma_fixed_side_numeric(c.pre_gamma as int, 2, false);
    lemma_numeric_pair_free(fixed(c.pre_gamma as int, 2), 't', 'b');
    lemma_pair_free_concat(a6, fixed(c.pre_gamma as int, 2), 't', 'b');
    let a7 = a6 + fixed(c.pre_gamma as int, 2);
    reveal_strlit(",hue=h=-8:s=");
    assert(pair_free(",hue=h=-8:s="@, 't', 'b'));
    lemma_pair_free_concat(a7, ",hue=h=-8:s="@, 't', 'b');
    let a8 = a7 + ",hue=h=-8:s="@;
    lemma_fixed_side_numeric(c.hue_saturation as int, 2, false);
    lemma_numeric_pair_free(fixed(c.hue_saturation as int, 2), 't', 'b');
    lemma_pair_free_concat(a8, fixed(c.hue_saturation as int, 2), 't', 'b');
    let a9 = a8 + fixed(c.hue_saturation as int, 2);
    reveal_strlit(",boxblur=luma_radius=");
    assert(pair_free(",boxblur=luma_radius="@, 't', 'b'));
    lemma_pair_free_concat(a9, ",boxblur=luma_radius="@, 't', 'b');
    let a10 = a9 + ",boxblur=luma_radius="@;
    lemma_fixed_side_numeric(p.blur_radius + 100_000_000, 2, tie_flips(TieValue::SoftBlur, ti));
    lemma_numeric_pair_free(fixed_side(p.blur_radius + 100_000_000, 2, tie_flips(TieValue::SoftBlur, ti)), 't', 'b');
    lemma_pair_free_concat(a10, fixed_side(p.blur_radius + 100_000_000, 2, tie_flips(TieValue::SoftBlur, ti)), 't', 'b');
    let a11 = a10 + fixed_side(p.blur_radius + 100_000_000, 2, tie_flips(TieValue::SoftBlur, ti));
    reveal_strlit(":luma_power=1:chroma_radius=");
    assert(pair_free(":luma_power=1:chroma_radius="@, 't', 'b'));
    lemma_pair_free_concat(a11, ":luma_power=1:chroma_radius="@, 't', 'b');
    let a12 = a11 + ":luma_power=1:chroma_radius="@;
    lemma_fixed_side_numeric(p.blur_radius + 145_000_000, 2, tie_flips(TieValue::SoftChromaBlur, ti));
    lemma_numeric_pair_free(fixed_side(p.blur_radius + 145_000_000, 2, tie_flips(TieValue::SoftChromaBlur, ti)), 't', 'b');
    lemma_pair_free_concat(a12, fixed_side(p.blur_radius + 145_000_000, 2, tie_flips(TieValue::SoftChromaBlur, ti)), 't', 'b');
    let a13 = a12 + fixed_side(p.blur_radius + 145_000_000, 2, tie_flips(TieValue::SoftChromaBlur, ti));
    reveal_strlit(":chroma_power=1,chromashift=cbh=");
    assert(pair_free(":chroma_power=1,chromashift=cbh="@, 't', 'b'));
    lemma_pair_free_concat(a13, ":chroma_power=1,chromashift=cbh="@, 't', 'b');
    let a14 = a13 + ":chroma_power=1,chromashift=cbh="@;
    lemma_int_str_numeric(p.chroma_shift as int);
    lemma_numeric_pair_free(int_str(p.chroma_shift as int), 't', 'b');
    lemma_pair_free_concat(a14, int_str(p.chroma_shift as int), 't', 'b');
    let a15 = a14 + int_str(p.chroma_shift as int);
    reveal_strlit(":crh=");
    assert(pair_free(":crh="@, 't', 'b'));
    lemma_pair_free_concat(a15, ":crh="@, 't', 'b');
    let a16 = a15 + ":crh="@;
    lemma_int_str_numeric(-p.chroma_shift);
    lemma_numeric_pair_free(int_str(-p.chroma_shift), 't', 'b');
    lemma_pair_free_concat(a16, int_str(-p.chroma_shift), 't', 'b');
    let a17 = a16 + int_str(-p.chroma_shift);
    reveal_strlit(":cbv=1:crv=-1:edge=smear,lagfun=decay=");
    assert(pair_free(":cbv=1:crv=-1:edge=smear,lagfun=decay="@, 't', 'b'));
    lemma_pair_free_concat(a17, ":cbv=1:crv=-1:edge=smear,lagfun=decay="@, 't', 'b');
    let a18 = a17 + ":cbv=1:crv=-1:edge=smear,lagfun=decay="@;
    lemma_fixed_side_numeric(88_000_000 + p.ghost_opacity * 20 / 100, 2, false);
    lemma_numeric_pair_free(fixed(88_000_000 + p.ghost_opacity * 20 / 100, 2), 't', 'b');
    lemma_pair_free_concat(a18, fixed(88_000_000 + p.ghost_opacity * 20 / 100, 2), 't', 'b');
    let a19 = a18 + fixed(88_000_000 + p.ghost_opacity * 20 / 100, 2);
    reveal_strlit(",noise=alls=");
    assert(pair_free(",noise=alls="@, 't', 'b'));
    lemma_pair_free_concat(a19, ",noise=alls="@, 't', 'b');
    let a20 = a19 + ",noise=alls="@;
    lemma_dec_numeric(soft_noise as nat);
    lemma_numeric_pair_free(dec(soft_noise as nat), 't', 'b');
    lemma_pair_free_concat(a20, dec(soft_noise as nat), 't', 'b');
    let a21 = a20 + dec(soft_noise as nat);
    reveal_strlit(":allf=t:all_seed=37,");
    assert(pair_free(":allf=t:all_seed=37,"@, 't', 'b'));
    lemma_pair_free_concat(a21, ":allf=t:all_seed=37,"@, 't', 'b');
    let a22 = a21 + ":allf=t:all_seed=37,"@;
    assert(a22 == vhs_soft_grading(p, profile, ti));
}

#[verifier::rlimit(60)]
proof fn lemma_vhs_soft_finish_pair_free_tb(p: VhsParams, profile: VhsColorProfile, ti: int)
    ensures
        pair_free(vhs_soft_finish(p, profile, ti), 't', 'b'),
{
    reveal(vhs_soft_finish);
    let c = vhs_color_of(p, profile);
    reveal_strlit(",format=rgba,rgbashift=rh=");
    assert(pair_free(",format=rgba,rgbashift=rh="@, 't', 'b'));
    let a0 = ",format=rgba,rgbashift=rh="@;
    lemma_int_str_numeric(p.rgb_shift as int);
    lemma_numeric_pair_free(int_str(p.rgb_shift as int), 't', 'b');
    lemma_pair_free_concat(a0, int_str(p.rgb_shift as int), 't', 'b');
    let a1 = a0 + int_str(p.rgb_shift as int);
    reveal_strlit(":bh=");
    assert(pair_free(":bh="@, 't', 'b'));
    lemma_pair_free_concat(a1, ":bh="@, 't', 'b');
    let a2 = a1 + ":bh="@;
    lemma_int_str_numeric(-p.rgb_shift);
    lemma_numeric_pair_free(int_str(-p.rgb_shift), 't', 'b');
    lemma_pair_free_concat(a2, int_str(-p.rgb_shift), 't', 'b');
    let a3 = a2 + int_str(-p.rgb_shift);
    reveal_strlit(":rv=1:bv=-1:edge=smear,boxblur=luma_radius=0.80:luma_power=1:chroma_radius=0.80:chroma_power=1,eq=contrast=");
    assert(pair_free(":rv=1:bv=-1:edge=smear,boxblur=luma_radius=0.80:luma_power=1:chroma_radius=0.80:chroma_power=1,eq=contrast="@, 't', 'b'));
    lemma_pair_free_concat(a3, ":rv=1:bv=-1:edge=smear,boxblur=luma_radius=0.80:luma_power=1:chroma_radius=0.80:chroma_power=1,eq=contrast="@, 't', 'b');
    let a4 = a3 + ":rv=1:bv=-1:edge=smear,boxblur=luma_radius=0.80:luma_power=1:chroma_radius=0.80:chroma_power=1,eq=contrast="@;
    lemma_fixed_side_numeric(c.post_contrast as int, 2, false);
    lemma_numeric_pair_free(fixed(c.post_contrast as int, 2), 't', 'b');
    lemma_pair_free_concat(a4, fixed(c.post_contrast as int, 2), 't', 'b');
    let a5 = a4 + fixed(c.post_contrast as int, 2);
    reveal_strlit(":brightness=");
    assert(pair_free(":brightness="@, 't', 'b'));
    lemma_pair_free_concat(a5, ":brightness="@, 't', 'b');
    let a6 = a5 + ":brightness="@;
    lemma_fixed_side_numeric(c.post_brightness as int, 3, post_brightness_flips(profile, ti));
    lemma_numeric_pair_free(fixed_side(c.post_brightness as int, 3, post_brightness_flips(profile, ti)), 't', 'b');
    lemma_pair_free_concat(a6, fixed_side(c.post_brightness as int, 3, post_brightness_flips(profile, ti)), 't', 'b');
    let a7 = a6 + fixed_side(c.post_brightness as int, 3, post_brightness_flips(profile, ti));
    reveal_strlit(":saturation=");
    assert(pair_free(":saturation="@, 't', 'b'));
    lemma_pair_free_concat(a7, ":saturation="@, 't', 'b');
    let a8 = a7 + ":saturation="@;
    lemma_fixed_side_numeric(c.post_saturation as int, 2, false);
    lemma_numeric_pair_free(fixed(c.post_saturation as int, 2), 't', 'b');
    lemma_pair_free_concat(a8, fixed(c.post_saturation as int, 2), 't', 'b');
    let a9 = a8 + fixed(c.post_saturation as int, 2);
    reveal_strlit(":gamma=");
    assert(pair_free(":gamma="@, 't', 'b'));
    lemma_pair_free_concat(a9, ":gamma="@, 't', 'b');
    let a10 = a9 + ":gamma="@;
    lemma_fixed_side_numeric(c.post_gamma as int, 2, false);
    lemma_numeric_pair_free(fixed(c.post_gamma as int, 2), 't', 'b');
    lemma_pair_free_concat(a10, fixed(c.post_gamma as int, 2), 't', 'b');
    let a11 = a10 + fixed(c.post_gamma as int, 2);
    reveal_strlit(",vignette=angle=PI/4,");
    assert(pair_free(",vignette=angle=PI/4,"@, 't', 'b'));
    lemma_pair_free_concat(a11, ",vignette=angle=PI/4,"@, 't', 'b');
    let a12 = a11 + ",vignette=angle=PI/4,"@;
    assert(a12 == vhs_soft_finish(p, profile, ti));
}

#[verifier::rlimit(60)]
proof fn lemma_vhs_scanline_grading_pair_free_eqd(p: VhsParams, ti: int)
    ensures
        pair_free(vhs_scanline_grading(p, ti), '=', 'd'),
{
    reveal(vhs_scanline_grading);
    reveal_strlit("boxblur=luma_radius=");
    assert(pair_free("boxblur=luma_radius="@, '=', 'd'));
    let a0 = "boxblur=luma_radius="@;
    lemma_fixed_side_numeric(p.blur_radius as int, 2, tie_flips(TieValue::Blur, ti));
    lemma_numeric_pair_free(fixed_side(p.blur_radius as int, 2, tie_flips(TieValue::Blur, ti)), '=', 'd');
    lemma_pair_free_concat(a0, fixed_side(p.blur_radius as int, 2, tie_flips(TieValue::Blur, ti)), '=', 'd');
    let a1 = a0 + fixed_side(p.blur_radius as int, 2, tie_flips(TieValue::Blur, ti));
    reveal_strlit(":luma_power=1:chroma_radius=");
    assert(pair_free(":luma_power=1:chroma_radius="@, '=', 'd'));
    lemma_pair_free_concat(a1, ":luma_power=1:chroma_radius="@, '=', 'd');
    let a2 = a1 + ":luma_power=1:chroma_radius="@;
    lemma_fixed_side_numeric(p.blur_radius + 40_000_000, 2, tie_flips(TieValue::ChromaBlur, ti));
    lemma_numeric_pair_free(fixed_side(p.blur_radius + 40_000_000, 2, tie_flips(TieValue::ChromaBlur, ti)), '=', 'd');
    lemma_pair_free_concat(a2, fixed_side(p.blur_radius + 40_000_000, 2, tie_flips(TieValue::ChromaBlur, ti)), '=', 'd');
    let a3 = a2 + fixed_side(p.blur_radius + 40_000_000, 2, tie_flips(TieValue::ChromaBlur, ti));
    reveal_strlit(":chroma_power=1,chromashift=cbh=");
    assert(pair_free(":chroma_power=1,chromashift=cbh="@, '=', 'd'));
    lemma_pair_free_concat(a3, ":chroma_power=1,chromashift=cbh="@, '=', 'd');
    let a4 = a3 + ":chroma_power=1,chromashift=cbh="@;
    lemma_int_str_numeric(p.chroma_shift as int);
    lemma_numeric_pair_free(int_str(p.chroma_shift as int), '=', 'd');
    lemma_pair_free_concat(a4, int_str(p.chroma_shift as int), '=', 'd');
    let a5 = a4 + int_str(p.chroma_shift as int);
    reveal_strlit(":crh=");
    assert(pair_free(":crh="@, '=', 'd'));
    lemma_pair_free_concat(a5, ":crh="@, '=', 'd');
    let a6 = a5 + ":crh="@;
    lemma_int_str_numeric(-p.chroma_shift);
    lemma_numeric_pair_free(int_str(-p.chroma_shift), '=', 'd');
    lemma_pair_free_concat(a6, int_str(-p.chroma_shift), '=', 'd');
    let a7 = a6 + int_str(-p.chroma_shift);
    reveal_strlit(":edge=smear,rgbashift=rh=");
    assert(pair_free(":edge=smear,rgbashift=rh="@, '=', 'd'));
    lemma_pair_free_concat(a7, ":edge=smear,rgbashift=rh="@, '=', 'd');
    let a8 = a7 + ":edge=smear,rgbashift=rh="@;
    lemma_int_str_numeric(p.rgb_shift as int);
    lemma_numeric_pair_free(int_str(p.rgb_shift as int), '=', 'd');
    lemma_pair_free_concat(a8, int_str(p.rgb_shift as int), '=', 'd');
    let a9 = a8 + int_str(p.rgb_shift as int);
    reveal_strlit(":bh=");
    assert(pair_free(":bh="@, '=', 'd'));
    lemma_pair_free_concat(a9, ":bh="@, '=', 'd');
    let a10 = a9 + ":bh="@;
    lemma_int_str_numeric(-p.rgb_shift);
    lemma_numeric_pair_free(int_str(-p.rgb_shift), '=', 'd');
    lemma_pair_free_concat(a10, int_str(-p.rgb_shift), '=', 'd');
    let a11 = a10 + int_str(-p.rgb_shift);
    reveal_strlit(":edge=smear,tblend=all_mode=average:all_opacity=");
    assert(pair_free(":edge=smear,tblend=all_mode=average:all_opacity="@, '=', 'd'));
    lemma_pair_free_concat(a11, ":edge=smear,tblend=all_mode=average:all_opacity="@, '=', 'd');
    let a12 = a11 + ":edge=smear,tblend=all_mode=average:all_opacity="@;
    lemma_fixed_side_numeric(p.ghost_opacity as int, 2, tie_flips(TieValue::Ghosting, ti));
    lemma_numeric_pair_free(fixed_side(p.ghost_opacity as int, 2, tie_flips(TieValue::Ghosting, ti)), '=', 'd');
    lemma_pair_free_concat(a12, fixed_side(p.ghost_opacity as int, 2, tie_flips(TieValue::Ghosting, ti)), '=', 'd');
    let a13 = a12 + fixed_side(p.ghost_opacity as int, 2, tie_flips(TieValue::Ghosting, ti));
    reveal_strlit(",noise=alls=");
    assert(pair_free(",noise=alls="@, '=', 'd'));
    lemma_pair_free_concat(a13, ",noise=alls="@, '=', 'd');
    let a14 = a13 + ",noise=alls="@;
    lemma_dec_numeric(p.noise_strength as nat);
    lemma_numeric_pair_free(dec(p.noise_strength as nat), '=', 'd');
    lemma_pair_free_concat(a14, dec(p.noise_strength as nat), '=', 'd');
    let a15 = a14 + dec(p.noise_strength as nat);
    reveal_strlit(":allf=t+u,eq=contrast=");
    assert(pair_free(":allf=t+u,eq=contrast="@, '=', 'd'));
    lemma_pair_free_concat(a15, ":allf=t+u,eq=contrast="@, '=', 'd');
    let a16 = a15 + ":allf=t+u,eq=contrast="@;
    lemma_fixed_side_numeric(p.contrast as int, 2, false);
    lemma_numeric_pair_free(fixed(p.contrast as int, 2), '=', 'd');
    lemma_pair_free_concat(a16, fixed(p.contrast as int, 2), '=', 'd');
    let a17 = a16 + fixed(p.contrast as int, 2);
    reveal_strlit(":brightness=");
    assert(pair_free(":brightness="@, '=', 'd'));
    lemma_pair_free_concat(a17, ":brightness="@, '=', 'd');
    let a18 = a17 + ":brightness="@;
    lemma_fixed_side_numeric(p.brightness as int, 3, tie_flips(TieValue::Brightness, ti));
    lemma_numeric_pair_free(fixed_side(p.brightness as int, 3, tie_flips(TieValue::Brightness, ti)), '=', 'd');
    lemma_pair_free_concat(a18, fixed_side(p.brightness as int, 3, tie_flips(TieValue::Brightness, ti)), '=', 'd');
    let a19 = a18 + fixed_side(p.brightness as int, 3, tie_flips(TieValue::Brightness, ti));
    reveal_strlit(":saturation=");
    assert(pair_free(":saturation="@, '=', 'd'));
    lemma_pair_free_concat(a19, ":saturation="@, '=', 'd');
    let a20 = a19 + ":saturation="@;
    lemma_fixed_side_numeric(p.saturation as int, 2, false);
    lemma_numeric_pair_free(fixed(p.saturation as int, 2), '=', 'd');
    lemma_pair_free_concat(a20, fixed(p.saturation as int, 2), '=', 'd');
    let a21 = a20 + fixed(p.saturation as int, 2);
    reveal_strlit(":gamma=");
    assert(pair_free(":gamma="@, '=', 'd'));
    lemma_pair_free_concat(a21, ":gamma="@, '=', 'd');
    let a22 = a21 + ":gamma="@;
    lemma_fixed_side_numeric(p.gamma as int, 2, false);
    lemma_numeric_pair_free(fixed(p.gamma as int, 2), '=', 'd');
    lemma_pair_free_concat(a22, fixed(p.gamma as int, 2), '=', 'd');
    let a23 = a22 + fixed(p.gamma as int, 2);
    reveal_strlit(",drawgrid=w=iw:h=2:t=1:c=black@");
    assert(pair_free(",drawgrid=w=iw:h=2:t=1:c=black@"@, '=', 'd'));
    lemma_pair_free_concat(a23, ",drawgrid=w=iw:h=2:t=1:c=black@"@, '=', 'd');
    let a24 = a23 + ",drawgrid=w=iw:h=2:t=1:c=black@"@;
    lemma_fixed_side_numeric(p.scanline_alpha as int, 2, false);
    lemma_numeric_pair_free(fixed(p.scanline_alpha as int, 2), '=', 'd');
    lemma_pair_free_concat(a24, fixed(p.scanline_alpha as int, 2), '=', 'd');
    let a25 = a24 + fixed(p.scanline_alpha as int, 2);
    reveal_strlit(",");
    assert(pair_free(","@, '=', 'd'));
    lemma_pair_free_concat(a25, ","@, '=', 'd');
    let a26 = a25 + ","@;
    assert(a26 == vhs_scanline_grading(p, ti));
}

proof fn lemma_vhs_scanline_grading_has_grid(p: VhsParams, ti: int)
    ensures
        contains(vhs_scanline_grading(p, ti), "drawgrid="@),
{
    reveal(vhs_scanline_grading);
    reveal_strlit(",drawgrid=w=iw:h=2:t=1:c=black@");
    reveal_strlit("drawgrid=");
    assert(",drawgrid=w=iw:h=2:t=1:c=black@"@.subrange(1, 1 + "drawgrid="@.len() as int) =~= "drawgrid="@);
    let a0 = "boxblur=luma_radius="@;
    let a1 = a0 + fixed_side(p.blur_radius as int, 2, tie_flips(TieValue::Blur, ti));
    let a2 = a1 + ":luma_power=1:chroma_radius="@;
    let a3 = a2 + fixed_side(p.blur_radius + 40_000_000, 2, tie_flips(TieValue::ChromaBlur, ti));
    let a4 = a3 + ":chroma_power=1,chromashift=cbh="@;
    let a5 = a4 + int_str(p.chroma_shift as int);
    let a6 = a5 + ":crh="@;
    let a7 = a6 + int_str(-p.chroma_shift);
    let a8 = a7 + ":edge=smear,rgbashift=rh="@;
    let a9 = a8 + int_str(p.rgb_shift as int);
    let a10 = a9 + ":bh="@;
    let a11 = a10 + int_str(-p.rgb_shift);
    let a12 = a11 + ":edge=smear,tblend=all_mode=average:all_opacity="@;
    let a13 = a12 + fixed_side(p.ghost_opacity as int, 2, tie_flips(TieValue::Ghosting, ti));
    let a14 = a13 + ",noise=alls="@;
    let a15 = a14 + dec(p.noise_strength as nat);
    let a16 = a15 + ":allf=t+u,eq=contrast="@;
    let a17 = a16 + fixed(p.contrast as int, 2);
    let a18 = a17 + ":brightness="@;
    let a19 = a18 + fixed_side(p.brightness as int, 3, tie_flips(TieValue::Brightness, ti));
    let a20 = a19 + ":saturation="@;
    let a21 = a20 + fixed(p.saturation as int, 2);
    let a22 = a21 + ":gamma="@;
    let a23 = a22 + fixed(p.gamma as int, 2);
    let a24 = a23 + ",drawgrid=w=iw:h=2:t=1:c=black@"@;
    lemma_occurs_after(a23, ",drawgrid=w=iw:h=2:t=1:c=black@"@);
    lemma_occurs_inner(a24, ",drawgrid=w=iw:h=2:t=1:c=black@"@, "drawgrid="@, a23.len() as int, 1);
    let pos: int = a23.len() as int + 1;
    let a25 = a24 + fixed(p.scanline_alpha as int, 2);
    lemma_occurs_extend(a24, "drawgrid="@, pos, fixed(p.scanline_alpha as int, 2));
    let a26 = a25 + ","@;
    lemma_occurs_extend(a25, "drawgrid="@, pos, ","@);
    assert(a26 == vhs_scanline_grading(p, ti));
    assert(occurs_at(vhs_scanline_grading(p, ti), "drawgrid="@, pos));
}

proof fn lemma_vhs_scanline_grading_has_blend(p: VhsParams, ti: int)
    ensures
        contains(vhs_scanline_grading(p, ti), "tblend="@),
{
    reveal(vhs_scanline_grading);
    reveal_strlit(":edge=smear,tblend=all_mode=average:all_opacity=");
    reveal_strlit("tblend=");
    assert(":edge=smear,tblend=all_mode=average:all_opacity="@.subrange(12, 12 + "tblend="@.len() as int) =~= "tblend="@);
    let a0 = "boxblur=luma_radius="@;
    let a1 = a0 + fixed_side(p.blur_radius as int, 2, tie_flips(TieValue::Blur, ti));
    let a2 = a1 + ":luma_power=1:chroma_radius="@;
    let a3 = a2 + fixed_side(p.blur_radius + 40_000_000, 2, tie_flips(TieValue::ChromaBlur, ti));
    let a4 = a3 + ":chroma_power=1,chromashift=cbh="@;
    let a5 = a4 + int_str(p.chroma_shift as int);
    let a6 = a5 + ":crh="@;
    let a7 = a6 + int_str(-p.chroma_shift);
    let a8 = a7 + ":edge=smear,rgbashift=rh="@;
    let a9 = a8 + int_str(p.rgb_shift as int);
    let a10 = a9 + ":bh="@;
    let a11 = a10 + int_str(-p.rgb_shift);
    let a12 = a11 + ":edge=smear,tblend=all_mode=average:all_opacity="@;
    lemma_occurs_after(a11, ":edge=smear,tblend=all_mode=average:all_opacity="@);
    lemma_occurs_inner(a12, ":edge=smear,tblend=all_mode=average:all_opacity="@, "tblend="@, a11.len() as int, 12);
    let pos: int = a11.len() as int + 12;
    let a13 = a12 + fixed_side(p.ghost_opacity as int, 2, tie_flips(TieValue::Ghosting, ti));
    lemma_occurs_extend(a12, "tblend="@, pos, fixed_side(p.ghost_opacity as int, 2, tie_flips(TieValue::Ghosting, ti)));
    let a14 = a13 + ",noise=alls="@;
    lemma_occurs_extend(a13, "tblend="@, pos, ",noise=alls="@);
    let a15 = a14 + dec(p.noise_strength as nat);
    lemma_occurs_extend(a14, "tblend="@, pos, dec(p.noise_strength as nat));
    let a16 = a15 + ":allf=t+u,eq=contrast="@;
    lemma_occurs_extend(a15, "tblend="@, pos, ":allf=t+u,eq=contrast="@);
    let a17 = a16 + fixed(p.contrast as int, 2);
    lemma_occurs_extend(a16, "tblend="@, pos, fixed(p.contrast as int, 2));
    let a18 = a17 + ":brightness="@;
    lemma_occurs_extend(a17, "tblend="@, pos, ":brightness="@);
    let a19 = a18 + fixed_side(p.brightness as int, 3, tie_flips(TieValue::Brightness, ti));
    lemma_occurs_extend(a18, "tblend="@, pos, fixed_side(p.brightness as int, 3, tie_flips(TieValue::Brightness, ti)));
    let a20 = a19 + ":saturation="@;
    lemma_occurs_extend(a19, "tblend="@, pos, ":saturation="@);
    let a21 = a20 + fixed(p.saturation as int, 2);
    lemma_occurs_extend(a20, "tblend="@, pos, fixed(p.saturation as int, 2));
    let a22 = a21 + ":gamma="@;
    lemma_occurs_extend(a21, "tblend="@, pos, ":gamma="@);
    let a23 = a22 + fixed(p.gamma as int, 2);
    lemma_occurs_extend(a22, "tblend="@, pos, fixed(p.gamma as int, 2));
    let a24 = a23 + ",drawgrid=w=iw:h=2:t=1:c=black@"@;
    lemma_occurs_extend(a23, "tblend="@, pos, ",drawgrid=w=iw:h=2:t=1:c=black@"@);
    let a25 = a24 + fixed(p.scanline_alpha as int, 2);
    lemma_occurs_extend(a24, "tblend="@, pos, fixed(p.scanline_alpha as int, 2));
    let a26 = a25 + ","@;
    lemma_occurs_extend(a25, "tblend="@, pos, ","@);
    assert(a26 == vhs_scanline_grading(p, ti));
    assert(occurs_at(vhs_scanline_grading(p, ti), "tblend="@, pos));
}

proof fn lemma_vhs_soft_grading_has_lag(p: VhsParams, profile: VhsColorProfile, ti: int)
    ensures
        contains(vhs_soft_grading(p, profile, ti), "lagfun=decay="@),
{
    reveal(vhs_soft_grading);
    let c = vhs_color_of(p, profile);
    let soft_noise = if 2 + p.noise_strength / 4 < 8 { 2 + p.noise_strength / 4 } else { 8 };
    reveal_strlit(":cbv=1:crv=-1:edge=smear,lagfun=decay=");
    reveal_strlit("lagfun=decay=");
    assert(":cbv=1:crv=-1:edge=smear,lagfun=decay="@.subrange(25, 25 + "lagfun=decay="@.len() as int) =~= "lagfun=decay="@);
    let a0 = "eq=contrast="@;
    let a1 = a0 + fixed(c.pre_contrast as int, 2);
    let a2 = a1 + ":brightness="@;
    let a3 = a2 + fixed_side(c.pre_brightness as int, 3, pre_brightness_flips(profile, ti));
    let a4 = a3 + ":saturation="@;
    let a5 = a4 + fixed(c.pre_saturation as int, 2);
    let a6 = a5 + ":gamma="@;
    let a7 = a6 + fixed(c.pre_gamma as int, 2);
    let a8 = a7 + ",hue=h=-8:s="@;
    let a9 = a8 + fixed(c.hue_saturation as int, 2);
    let a10 = a9 + ",boxblur=luma_radius="@;
    let a11 = a10 + fixed_side(p.blur_radius + 100_000_000, 2, tie_flips(TieValue::SoftBlur, ti));
    let a12 = a11 + ":luma_power=1:chroma_radius="@;
    let a13 = a12 + fixed_side(p.blur_radius + 145_000_000, 2, tie_flips(TieValue::SoftChromaBlur, ti));
    let a14 = a13 + ":chroma_power=1,chromashift=cbh="@;
    let a15 = a14 + int_str(p.chroma_shift as int);
    let a16 = a15 + ":crh="@;
    let a17 = a16 + int_str(-p.chroma_shift);
    let a18 = a17 + ":cbv=1:crv=-1:edge=smear,lagfun=decay="@;
    lemma_occurs_after(a17, ":cbv=1:crv=-1:edge=smear,lagfun=decay="@);
    lemma_occurs_inner(a18, ":cbv=1:crv=-1:edge=smear,lagfun=decay="@, "lagfun=decay="@, a17.len() as int, 25);
    let pos: int = a17.len() as int + 25;
    let a19 = a18 + fixed(88_000_000 + p.ghost_opacity * 20 / 100, 2);
    lemma_occurs_extend(a18, "lagfun=decay="@, pos, fixed(88_000_000 + p.ghost_opacity * 20 / 100, 2));
    let a20 = a19 + ",noise=alls="@;
    lemma_occurs_extend(a19, "lagfun=decay="@, pos, ",noise=alls="@);
    let a21 = a20 + dec(soft_noise as nat);
    lemma_occurs_extend(a20, "lagfun=decay="@, pos, dec(soft_noise as nat));
    let a22 = a21 + ":allf=t:all_seed=37,"@;
    lemma_occurs_extend(a21, "lagfun=decay="@, pos, ":allf=t:all_seed=37,"@);
    assert(a22 == vhs_soft_grading(p, profile, ti));
    assert(occurs_at(vhs_soft_grading(p, profile, ti), "lagfun=decay="@, pos));
}

proof fn lemma_tracking_distortion_ends(p: VhsParams, ti: int)
    ensures
        tracking_distortion(p, ti).len() > 0,
        tracking_distortion(p, ti)[0] == 'd',
        tracking_distortion(p, ti).last() == '\'',
{
    let skew = 4 + p.rgb_shift * 2;
    let half_skew = if skew / 2 > 1 { skew / 2 } else { 1 };
    let secondary_tracking = p.tracking_alpha * 70 / 100;
    let secondary_height = if p.tracking_height / 2 > 1 { p.tracking_height / 2 } else { 1 };
    reveal_strlit("drawbox=x=0:y='trunc(mod(t*61,ih))':w=iw:h=");
    reveal_strlit(":y3=H:interpolation=linear:eval=init:enable='lt(mod(t+1.7,4.4),0.12)'");
    let a0 = "drawbox=x=0:y='trunc(mod(t*61,ih))':w=iw:h="@;
    assert(a0.len() > 0 && a0[0] == 'd');
    let a1 = a0 + dec(p.tracking_height as nat);
    assert(a1[0] == a0[0]);
    let a2 = a1 + ":c=white@"@;
    assert(a2[0] == a1[0]);
    let a3 = a2 + fixed(p.tracking_alpha as int, 2);
    assert(a3[0] == a2[0]);
    let a4 = a3 + ":t=fill:enable='lt(mod(t,3.1),0.16)',drawbox=x=0:y='trunc(mod(t*83+ih/3,ih))':w=iw:h="@;
    assert(a4[0] == a3[0]);
    let a5 = a4 + dec(secondary_height as nat);
    assert(a5[0] == a4[0]);
    let a6 = a5 + ":c=black@"@;
    assert(a6[0] == a5[0]);
    let a7 = a6 + fixed_side(secondary_tracking, 2, tie_flips(TieValue::SecondaryTracking, ti));
    assert(a7[0] == a6[0]);
    let a8 = a7 + ":t=fill:enable='lt(mod(t+1.7,4.4),0.12)',perspective=x0="@;
    assert(a8[0] == a7[0]);
    let a9 = a8 + int_str(skew);
    assert(a9[0] == a8[0]);
    let a10 = a9 + ":y0=0:x1=W+"@;
    assert(a10[0] == a9[0]);
    let a11 = a10 + int_str(skew);
    assert(a11[0] == a10[0]);
    let a12 = a11 + ":y1=0:x2="@;
    assert(a12[0] == a11[0]);
    let a13 = a12 + int_str(-half_skew);
    assert(a13[0] == a12[0]);
    let a14 = a13 + ":y2=H:x3=W"@;
    assert(a14[0] == a13[0]);
    let a15 = a14 + int_str(-half_skew);
    assert(a15[0] == a14[0]);
    let a16 = a15 + ":y3=H:interpolation=linear:eval=init:enable='lt(mod(t,3.1),0.16)',perspective=x0="@;
    assert(a16[0] == a15[0]);
    let a17 = a16 + int_str(-skew);
    assert(a17[0] == a16[0]);
    let a18 = a17 + ":y0=0:x1=W"@;
    assert(a18[0] == a17[0]);
    let a19 = a18 + int_str(-skew);
    assert(a19[0] == a18[0]);
    let a20 = a19 + ":y1=0:x2="@;
    assert(a20[0] == a19[0]);
    let a21 = a20 + int_str(half_skew);
    assert(a21[0] == a20[0]);
    let a22 = a21 + ":y2=H:x3=W+"@;
    assert(a22[0] == a21[0]);
    let a23 = a22 + int_str(half_skew);
    assert(a23[0] == a22[0]);
    let a24 = a23 + ":y3=H:interpolation=linear:eval=init:enable='lt(mod(t+1.7,4.4),0.12)'"@;
    assert(a24[0] == a23[0]);
    assert(a24.last() == '\'');
    assert(a24 == tracking_distortion(p, ti));
}

proof fn lemma_vhs_soft_grading_ends(p: VhsParams, profile: VhsColorProfile, ti: int)
    ensures
        vhs_soft_grading(p, profile, ti).len() > 0,
        vhs_soft_grading(p, profile, ti)[0] == 'e',
        vhs_soft_grading(p, profile, ti).last() == ',',
{
    reveal(vhs_soft_grading);
    let c = vhs_color_of(p, profile);
    let soft_noise = if 2 + p.noise_strength / 4 < 8 { 2 + p.noise_strength / 4 } else { 8 };
    reveal_strlit("eq=contrast=");
    reveal_strlit(":allf=t:all_seed=37,");
    let a0 = "eq=contrast="@;
    assert(a0.len() > 0 && a0[0] == 'e');
    let a1 = a0 + fixed(c.pre_contrast as int, 2);
    assert(a1[0] == a0[0]);
    let a2 = a1 + ":brightness="@;
    assert(a2[0] == a1[0]);
    let a3 = a2 + fixed_side(c.pre_brightness as int, 3, pre_brightness_flips(profile, ti));
    assert(a3[0] == a2[0]);
    let a4 = a3 + ":saturation="@;
    assert(a4[0] == a3[0]);
    let a5 = a4 + fixed(c.pre_saturation as int, 2);
    assert(a5[0] == a4[0]);
    let a6 = a5 + ":gamma="@;
    assert(a6[0] == a5[0]);
    let a7 = a6 + fixed(c.pre_gamma as int, 2);
    assert(a7[0] == a6[0]);
    let a8 = a7 + ",hue=h=-8:s="@;
    assert(a8[0] == a7[0]);
    let a9 = a8 + fixed(c.hue_saturation as int, 2);
    assert(a9[0] == a8[0]);
    let a10 = a9 + ",boxblur=luma_radius="@;
    assert(a10[0] == a9[0]);
    let a11 = a10 + fixed_side(p.blur_radius + 100_000_000, 2, tie_flips(TieValue::SoftBlur, ti));
    assert(a11[0] == a10[0]);
    let a12 = a11 + ":luma_power=1:chroma_radius="@;
    assert(a12[0] == a11[0]);
    let a13 = a12 + fixed_side(p.blur_radius + 145_000_000, 2, tie_flips(TieValue::SoftChromaBlur, ti));
    assert(a13[0] == a12[0]);
    let a14 = a13 + ":chroma_power=1,chromashift=cbh="@;
    assert(a14[0] == a13[0]);
    let a15 = a14 + int_str(p.chroma_shift as int);
    assert(a15[0] == a14[0]);
    let a16 = a15 + ":crh="@;
    assert(a16[0] == a15[0]);
    let a17 = a16 + int_str(-p.chroma_shift);
    assert(a17[0] == a16[0]);
    let a18 = a17 + ":cbv=1:crv=-1:edge=smear,lagfun=decay="@;
    assert(a18[0] == a17[0]);
    let a19 = a18 + fixed(88_000_000 + p.ghost_opacity * 20 / 100, 2);
    assert(a19[0] == a18[0]);
    let a20 = a19 + ",noise=alls="@;
    assert(a20[0] == a19[0]);
    let a21 = a20 + dec(soft_noise as nat);
    assert(a21[0] == a20[0]);
    let a22 = a21 + ":allf=t:all_seed=37,"@;
    assert(a22[0] == a21[0]);
    assert(a22.last() == ',');
    assert(a22 == vhs_soft_grading(p, profile, ti));
}

proof fn lemma_vhs_soft_finish_ends(p: VhsParams, profile: VhsColorProfile, ti: int)
    ensures
        vhs_soft_finish(p, profile, ti).len() > 0,
        vhs_soft_finish(p, profile, ti)[0] == ',',
        vhs_soft_finish(p, profile, ti).last() == ',',
{
    reveal(vhs_soft_finish);
    let c = vhs_color_of(p, profile);
    reveal_strlit(",format=rgba,rgbashift=rh=");
    reveal_strlit(",vignette=angle=PI/4,");
    let a0 = ",format=rgba,rgbashift=rh="@;
    assert(a0.len() > 0 && a0[0] == ',');
    let a1 = a0 + int_str(p.rgb_shift as int);
    assert(a1[0] == a0[0]);
    let a2 = a1 + ":bh="@;
    assert(a2[0] == a1[0]);
    let a3 = a2 + int_str(-p.rgb_shift);
    assert(a3[0] == a2[0]);
    let a4 = a3 + ":rv=1:bv=-1:edge=smear,boxblur=luma_radius=0.80:luma_power=1:chroma_radius=0.80:chroma_power=1,eq=contrast="@;
    assert(a4[0] == a3[0]);
    let a5 = a4 + fixed(c.post_contrast as int, 2);
    assert(a5[0] == a4[0]);
    let a6 = a5 + ":brightness="@;
    assert(a6[0] == a5[0]);
    let a7 = a6 + fixed_side(c.post_brightness as int, 3, post_brightness_flips(profile, ti));
    assert(a7[0] == a6[0]);
    let a8 = a7 + ":saturation="@;
    assert(a8[0] == a7[0]);
    let a9 = a8 + fixed(c.post_saturation as int, 2);
    assert(a9[0] == a8[0]);
    let a10 = a9 + ":gamma="@;
    assert(a10[0] == a9[0]);
    let a11 = a10 + fixed(c.post_gamma as int, 2);
    assert(a11[0] == a10[0]);
    let a12 = a11 + ",vignette=angle=PI/4,"@;
    assert(a12[0] == a11[0]);
    assert(a12.last() == ',');
    assert(a12 == vhs_soft_finish(p, profile, ti));
}

proof fn lemma_vhs_scanline_grading_ends(p: VhsParams, ti: int)
    ensures
        vhs_scanline_grading(p, ti).len() > 0,
        vhs_scanline_grading(p, ti)[0] == 'b',
        vhs_scanline_grading(p, ti).last() == ',',
{
    reveal(vhs_scanline_grading);
    reveal_strlit("boxblur=luma_radius=");
    reveal_strlit(",");
    let a0 = "boxblur=luma_radius="@;
    assert(a0.len() > 0 && a0[0] == 'b');
    let a1 = a0 + fixed_side(p.blur_radius as int, 2, tie_flips(TieValue::Blur, ti));
    assert(a1[0] == a0[0]);
    let a2 = a1 + ":luma_power=1:chroma_radius="@;
    assert(a2[0] == a1[0]);
    let a3 = a2 + fixed_side(p.blur_radius + 40_000_000, 2, tie_flips(TieValue::ChromaBlur, ti));
    assert(a3[0] == a2[0]);
    let a4 = a3 + ":chroma_power=1,chromashift=cbh="@;
    assert(a4[0] == a3[0]);
    let a5 = a4 + int_str(p.chroma_shift as int);
    assert(a5[0] == a4[0]);
    let a6 = a5 + ":crh="@;
    assert(a6[0] == a5[0]);
    let a7 = a6 + int_str(-p.chroma_shift);
    assert(a7[0] == a6[0]);
    let a8 = a7 + ":edge=smear,rgbashift=rh="@;
    assert(a8[0] == a7[0]);
    let a9 = a8 + int_str(p.rgb_shift as int);
    assert(a9[0] == a8[0]);
    let a10 = a9 + ":bh="@;
    assert(a10[0] == a9[0]);
    let a11 = a10 + int_str(-p.rgb_shift);
    assert(a11[0] == a10[0]);
    let a12 = a11 + ":edge=smear,tblend=all_mode=average:all_opacity="@;
    assert(a12[0] == a11[0]);
    let a13 = a12 + fixed_side(p.ghost_opacity as int, 2, tie_flips(TieValue::Ghosting, ti));
    assert(a13[0] == a12[0]);
    let a14 = a13 + ",noise=alls="@;
    assert(a14[0] == a13[0]);
    let a15 = a14 + dec(p.noise_strength as nat);
    assert(a15[0] == a14[0]);
    let a16 = a15 + ":allf=t+u,eq=contrast="@;
    assert(a16[0] == a15[0]);
    let a17 = a16 + fixed(p.contrast as int, 2);
    assert(a17[0] == a16[0]);
    let a18 = a17 + ":brightness="@;
    assert(a18[0] == a17[0]);
    let a19 = a18 + fixed_side(p.brightness as int, 3, tie_flips(TieValue::Brightness, ti));
    assert(a19[0] == a18[0]);
    let a20 = a19 + ":saturation="@;
    assert(a20[0] == a19[0]);
    let a21 = a20 + fixed(p.saturation as int, 2);
    assert(a21[0] == a20[0]);
    let a22 = a21 + ":gamma="@;
    assert(a22[0] == a21[0]);
    let a23 = a22 + fixed(p.gamma as int, 2);
    assert(a23[0] == a22[0]);
    let a24 = a23 + ",drawgrid=w=iw:h=2:t=1:c=black@"@;
    assert(a24[0] == a23[0]);
    let a25 = a24 + fixed(p.scanline_alpha as int, 2);
    assert(a25[0] == a24[0]);
    let a26 = a25 + ","@;
    assert(a26[0] == a25[0]);
    assert(a26.last() == ',');
    assert(a26 == vhs_scanline_grading(p, ti));
}

#[verifier::rlimit(60)]
proof fn lemma_tracking_distortion_pair_free_ab(p: VhsParams, ti: int)
    ensures
        pair_free(tracking_distortion(p, ti), 'a', ']'),
{
    let skew = 4 + p.rgb_shift * 2;
    let half_skew = if skew / 2 > 1 { skew / 2 } else { 1 };
    let secondary_tracking = p.tracking_alpha * 70 / 100;
    let secondary_height = if p.tracking_height / 2 > 1 { p.tracking_height / 2 } else { 1 };
    reveal_strlit("drawbox=x=0:y='trunc(mod(t*61,ih))':w=iw:h=");
    assert(pair_free("drawbox=x=0:y='trunc(mod(t*61,ih))':w=iw:h="@, 'a', ']'));
    let a0 = "drawbox=x=0:y='trunc(mod(t*61,ih))':w=iw:h="@;
    lemma_dec_numeric(p.tracking_height as nat);
    lemma_numeric_pair_free(dec(p.tracking_height as nat), 'a', ']');
    lemma_pair_free_concat(a0, dec(p.tracking_height as nat), 'a', ']');
    let a1 = a0 + dec(p.tracking_height as nat);
    reveal_strlit(":c=white@");
    assert(pair_free(":c=white@"@, 'a', ']'));
    lemma_pair_free_concat(a1, ":c=white@"@, 'a', ']');
    let a2 = a1 + ":c=white@"@;
    lemma_fixed_side_numeric(p.tracking_alpha as int, 2, false);
    lemma_numeric_pair_free(fixed(p.tracking_alpha as int, 2), 'a', ']');
    lemma_pair_free_concat(a2, fixed(p.tracking_alpha as int, 2), 'a', ']');
    let a3 = a2 + fixed(p.tracking_alpha as int, 2);
    reveal_strlit(":t=fill:enable='lt(mod(t,3.1),0.16)',drawbox=x=0:y='trunc(mod(t*83+ih/3,ih))':w=iw:h=");
    assert(pair_free(":t=fill:enable='lt(mod(t,3.1),0.16)',drawbox=x=0:y='trunc(mod(t*83+ih/3,ih))':w=iw:h="@, 'a', ']'));
    lemma_pair_free_concat(a3, ":t=fill:enable='lt(mod(t,3.1),0.16)',drawbox=x=0:y='trunc(mod(t*83+ih/3,ih))':w=iw:h="@, 'a', ']');
    let a4 = a3 + ":t=fill:enable='lt(mod(t,3.1),0.16)',drawbox=x=0:y='trunc(mod(t*83+ih/3,ih))':w=iw:h="@;
    lemma_dec_numeric(secondary_height as nat);
    lemma_numeric_pair_free(dec(secondary_height as nat), 'a', ']');
    lemma_pair_free_concat(a4, dec(secondary_height as nat), 'a', ']');
    let a5 = a4 + dec(secondary_height as nat);
    reveal_strlit(":c=black@");
    assert(pair_free(":c=black@"@, 'a', ']'));
    lemma_pair_free_concat(a5, ":c=black@"@, 'a', ']');
    let a6 = a5 + ":c=black@"@;
    lemma_fixed_side_numeric(secondary_tracking, 2, tie_flips(TieValue::SecondaryTracking, ti));
    lemma_numeric_pair_free(fixed_side(secondary_tracking, 2, tie_flips(TieValue::SecondaryTracking, ti)), 'a', ']');
    lemma_pair_free_concat(a6, fixed_side(secondary_tracking, 2, tie_flips(TieValue::SecondaryTracking, ti)), 'a', ']');
    let a7 = a6 + fixed_side(secondary_tracking, 2, tie_flips(TieValue::SecondaryTracking, ti));
    reveal_strlit(":t=fill:enable='lt(mod(t+1.7,4.4),0.12)',perspective=x0=");
    assert(pair_free(":t=fill:enable='lt(mod(t+1.7,4.4),0.12)',perspective=x0="@, 'a', ']'));
    lemma_pair_free_concat(a7, ":t=fill:enable='lt(mod(t+1.7,4.4),0.12)',perspective=x0="@, 'a', ']');
    let a8 = a7 + ":t=fill:enable='lt(mod(t+1.7,4.4),0.12)',perspective=x0="@;
    lemma_int_str_numeric(skew);
    lemma_numeric_pair_free(int_str(skew), 'a', ']');
    lemma_pair_free_concat(a8, int_str(skew), 'a', ']');
    let a9 = a8 + int_str(skew);
    reveal_strlit(":y0=0:x1=W+");
    assert(pair_free(":y0=0:x1=W+"@, 'a', ']'));
    lemma_pair_free_concat(a9, ":y0=0:x1=W+"@, 'a', ']');
    let a10 = a9 + ":y0=0:x1=W+"@;
    lemma_int_str_numeric(skew);
    lemma_numeric_pair_free(int_str(skew), 'a', ']');
    lemma_pair_free_concat(a10, int_str(skew), 'a', ']');
    let a11 = a10 + int_str(skew);
    reveal_strlit(":y1=0:x2=");
    assert(pair_free(":y1=0:x2="@, 'a', ']'));
    lemma_pair_free_concat(a11, ":y1=0:x2="@, 'a', ']');
    let a12 = a11 + ":y1=0:x2="@;
    lemma_int_str_numeric(-half_skew);
    lemma_numeric_pair_free(int_str(-half_skew), 'a', ']');
    lemma_pair_free_concat(a12, int_str(-half_skew), 'a', ']');
    let a13 = a12 + int_str(-half_skew);
    reveal_strlit(":y2=H:x3=W");
    assert(pair_free(":y2=H:x3=W"@, 'a', ']'));
    lemma_pair_free_concat(a13, ":y2=H:x3=W"@, 'a', ']');
    let a14 = a13 + ":y2=H:x3=W"@;
    lemma_int_str_numeric(-half_skew);
    lemma_numeric_pair_free(int_str(-half_skew), 'a', ']');
    lemma_pair_free_concat(a14, int_str(-half_skew), 'a', ']');
    let a15 = a14 + int_str(-half_skew);
    reveal_strlit(":y3=H:interpolation=linear:eval=init:enable='lt(mod(t,3.1),0.16)',perspective=x0=");
    assert(pair_free(":y3=H:interpolation=linear:eval=init:enable='lt(mod(t,3.1),0.16)',perspective=x0="@, 'a', ']'));
    lemma_pair_free_concat(a15, ":y3=H:interpolation=linear:eval=init:enable='lt(mod(t,3.1),0.16)',perspective=x0="@, 'a', ']');
    let a16 = a15 + ":y3=H:interpolation=linear:eval=init:enable='lt(mod(t,3.1),0.16)',perspective=x0="@;
    lemma_int_str_numeric(-skew);
    lemma_numeric_pair_free(int_str(-skew), 'a', ']');
    lemma_pair_free_concat(a16, int_str(-skew), 'a', ']');
    let a17 = a16 + int_str(-skew);
    reveal_strlit(":y0=0:x1=W");
    assert(pair_free(":y0=0:x1=W"@, 'a', ']'));
    lemma_pair_free_concat(a17, ":y0=0:x1=W"@, 'a', ']');
    let a18 = a17 + ":y0=0:x1=W"@;
    lemma_int_str_numeric(-skew);
    lemma_numeric_pair_free(int_str(-skew), 'a', ']');
    lemma_pair_free_concat(a18, int_str(-skew), 'a', ']');
    let a19 = a18 + int_str(-skew);
    reveal_strlit(":y1=0:x2=");
    assert(pair_free(":y1=0:x2="@, 'a', ']'));
    lemma_pair_free_concat(a19, ":y1=0:x2="@, 'a', ']');
    let a20 = a19 + ":y1=0:x2="@;
    lemma_int_str_numeric(half_skew);
    lemma_numeric_pair_free(int_str(half_skew), 'a', ']');
    lemma_pair_free_concat(a20, int_str(half_skew), 'a', ']');
    let a21 = a20 + int_str(half_skew);
    reveal_strlit(":y2=H:x3=W+");
    assert(pair_free(":y2=H:x3=W+"@, 'a', ']'));
    lemma_pair_free_concat(a21, ":y2=H:x3=W+"@, 'a', ']');
    let a22 = a21 + ":y2=H:x3=W+"@;
    lemma_int_str_numeric(half_skew);
    lemma_numeric_pair_free(int_str(half_skew), 'a', ']');
    lemma_pair_free_concat(a22, int_str(half_skew), 'a', ']');
    let a23 = a22 + int_str(half_skew);
    reveal_strlit(":y3=H:interpolation=linear:eval=init:enable='lt(mod(t+1.7,4.4),0.12)'");
    assert(pair_free(":y3=H:interpolation=linear:eval=init:enable='lt(mod(t+1.7,4.4),0.12)'"@, 'a', ']'));
    lemma_pair_free_concat(a23, ":y3=H:interpolation=linear:eval=init:enable='lt(mod(t+1.7,4.4),0.12)'"@, 'a', ']');
    let a24 = a23 + ":y3=H:interpolation=linear:eval=init:enable='lt(mod(t+1.7,4.4),0.12)'"@;
    assert(a24 == tracking_distortion(p, ti));
}

#[verifier::rlimit(60)]
proof fn lemma_vhs_scanline_grading_pair_free_ab(p: VhsParams, ti: int)
    ensures
        pair_free(vhs_scanline_grading(p, ti), 'a', ']'),
{
    reveal(vhs_scanline_grading);
    reveal_strlit("boxblur=luma_radius=");
    assert(pair_free("boxblur=luma_radius="@, 'a', ']'));
    let a0 = "boxblur=luma_radius="@;
    lemma_fixed_side_numeric(p.blur_radius as int, 2, tie_flips(TieValue::Blur, ti));
    lemma_numeric_pair_free(fixed_side(p.blur_radius as int, 2, tie_flips(TieValue::Blur, ti)), 'a', ']');
    lemma_pair_free_concat(a0, fixed_side(p.blur_radius as int, 2, tie_flips(TieValue::Blur, ti)), 'a', ']');
    let a1 = a0 + fixed_side(p.blur_radius as int, 2, tie_flips(TieValue::Blur, ti));
    reveal_strlit(":luma_power=1:chroma_radius=");
    assert(pair_free(":luma_power=1:chroma_radius="@, 'a', ']'));
    lemma_pair_free_concat(a1, ":luma_power=1:chroma_radius="@, 'a', ']');
    let a2 = a1 + ":luma_power=1:chroma_radius="@;
    lemma_fixed_side_numeric(p.blur_radius + 40_000_000, 2, tie_flips(TieValue::ChromaBlur, ti));
    lemma_numeric_pair_free(fixed_side(p.blur_radius + 40_000_000, 2, tie_flips(TieValue::ChromaBlur, ti)), 'a', ']');
    lemma_pair_free_concat(a2, fixed_side(p.blur_radius + 40_000_000, 2, tie_flips(TieValue::ChromaBlur, ti)), 'a', ']');
    let a3 = a2 + fixed_side(p.blur_radius + 40_000_000, 2, tie_flips(TieValue::ChromaBlur, ti));
    reveal_strlit(":chroma_power=1,chromashift=cbh=");
    assert(pair_free(":chroma_power=1,chromashift=cbh="@, 'a', ']'));
    lemma_pair_free_concat(a3, ":chroma_power=1,chromashift=cbh="@, 'a', ']');
    let a4 = a3 + ":chroma_power=1,chromashift=cbh="@;
    lemma_int_str_numeric(p.chroma_shift as int);
    lemma_numeric_pair_free(int_str(p.chroma_shift as int), 'a', ']');
    lemma_pair_free_concat(a4, int_str(p.chroma_shift as int), 'a', ']');
    let a5 = a4 + int_str(p.chroma_shift as int);
    reveal_strlit(":crh=");
    assert(pair_free(":crh="@, 'a', ']'));
    lemma_pair_free_concat(a5, ":crh="@, 'a', ']');
    let a6 = a5 + ":crh="@;
    lemma_int_str_numeric(-p.chroma_shift);
    lemma_numeric_pair_free(int_str(-p.chroma_shift), 'a', ']');
    lemma_pair_free_concat(a6, int_str(-p.chroma_shift), 'a', ']');
    let a7 = a6 + int_str(-p.chroma_shift);
    reveal_strlit(":edge=smear,rgbashift=rh=");
    assert(pair_free(":edge=smear,rgbashift=rh="@, 'a', ']'));
    lemma_pair_free_concat(a7, ":edge=smear,rgbashift=rh="@, 'a', ']');
    let a8 = a7 + ":edge=smear,rgbashift=rh="@;
    lemma_int_str_numeric(p.rgb_shift as int);
    lemma_numeric_pair_free(int_str(p.rgb_shift as int), 'a', ']');
    lemma_pair_free_concat(a8, int_str(p.rgb_shift as int), 'a', ']');
    let a9 = a8 + int_str(p.rgb_shift as int);
    reveal_strlit(":bh=");
    assert(pair_free(":bh="@, 'a', ']'));
    lemma_pair_free_concat(a9, ":bh="@, 'a', ']');
    let a10 = a9 + ":bh="@;
    lemma_int_str_numeric(-p.rgb_shift);
    lemma_numeric_pair_free(int_str(-p.rgb_shift), 'a', ']');
    lemma_pair_free_concat(a10, int_str(-p.rgb_shift), 'a', ']');
    let a11 = a10 + int_str(-p.rgb_shift);
    reveal_strlit(":edge=smear,tblend=all_mode=average:all_opacity=");
    assert(pair_free(":edge=smear,tblend=all_mode=average:all_opacity="@, 'a', ']'));
    lemma_pair_free_concat(a11, ":edge=smear,tblend=all_mode=average:all_opacity="@, 'a', ']');
    let a12 = a11 + ":edge=smear,tblend=all_mode=average:all_opacity="@;
    lemma_fixed_side_numeric(p.ghost_opacity as int, 2, tie_flips(TieValue::Ghosting, ti));
    lemma_numeric_pair_free(fixed_side(p.ghost_opacity as int, 2, tie_flips(TieValue::Ghosting, ti)), 'a', ']');
    lemma_pair_free_concat(a12, fixed_side(p.ghost_opacity as int, 2, tie_flips(TieValue::Ghosting, ti)), 'a', ']');
    let a13 = a12 + fixed_side(p.ghost_opacity as int, 2, tie_flips(TieValue::Ghosting, ti));
    reveal_strlit(",noise=alls=");
    assert(pair_free(",noise=alls="@, 'a', ']'));
    lemma_pair_free_concat(a13, ",noise=alls="@, 'a', ']');
    let a14 = a13 + ",noise=alls="@;
    lemma_dec_numeric(p.noise_strength as nat);
    lemma_numeric_pair_free(dec(p.noise_strength as nat), 'a', ']');
    lemma_pair_free_concat(a14, dec(p.noise_strength as nat), 'a', ']');
    let a15 = a14 + dec(p.noise_strength as nat);
    reveal_strlit(":allf=t+u,eq=contrast=");
    assert(pair_free(":allf=t+u,eq=contrast="@, 'a', ']'));
    lemma_pair_free_concat(a15, ":allf=t+u,eq=contrast="@, 'a', ']');
    let a16 = a15 + ":allf=t+u,eq=contrast="@;
    lemma_fixed_side_numeric(p.contrast as int, 2, false);
    lemma_numeric_pair_free(fixed(p.contrast as int, 2), 'a', ']');
    lemma_pair_free_concat(a16, fixed(p.contrast as int, 2), 'a', ']');
    let a17 = a16 + fixed(p.contrast as int, 2);
    reveal_strlit(":brightness=");
    assert(pair_free(":brightness="@, 'a', ']'));
    lemma_pair_free_concat(a17, ":brightness="@, 'a', ']');
    let a18 = a17 + ":brightness="@;
    lemma_fixed_side_numeric(p.brightness as int, 3, tie_flips(TieValue::Brightness, ti));
    lemma_numeric_pair_free(fixed_side(p.brightness as int, 3, tie_flips(TieValue::Brightness, ti)), 'a', ']');
    lemma_pair_free_concat(a18, fixed_side(p.brightness as int, 3, tie_flips(TieValue::Brightness, ti)), 'a', ']');
    let a19 = a18 + fixed_side(p.brightness as int, 3, tie_flips(TieValue::Brightness, ti));
    reveal_strlit(":saturation=");
    assert(pair_free(":saturation="@, 'a', ']'));
    lemma_pair_free_concat(a19, ":saturation="@, 'a', ']');
    let a20 = a19 + ":saturation="@;
    lemma_fixed_side_numeric(p.saturation as int, 2, false);
    lemma_numeric_pair_free(fixed(p.saturation as int, 2), 'a', ']');
    lemma_pair_free_concat(a20, fixed(p.saturation as int, 2), 'a', ']');
    let a21 = a20 + fixed(p.saturation as int, 2);
    reveal_strlit(":gamma=");
    assert(pair_free(":gamma="@, 'a', ']'));
    lemma_pair_free_concat(a21, ":gamma="@, 'a', ']');
    let a22 = a21 + ":gamma="@;
    lemma_fixed_side_numeric(p.gamma as int, 2, false);
    lemma_numeric_pair_free(fixed(p.gamma as int, 2), 'a', ']');
    lemma_pair_free_concat(a22, fixed(p.gamma as int, 2), 'a', ']');
    let a23 = a22 + fixed(p.gamma as int, 2);
    reveal_strlit(",drawgrid=w=iw:h=2:t=1:c=black@");
    assert(pair_free(",drawgrid=w=iw:h=2:t=1:c=black@"@, 'a', ']'));
    lemma_pair_free_concat(a23, ",drawgrid=w=iw:h=2:t=1:c=black@"@, 'a', ']');
    let a24 = a23 + ",drawgrid=w=iw:h=2:t=1:c=black@"@;
    lemma_fixed_side_numeric(p.scanline_alpha as int, 2, false);
    lemma_numeric_pair_free(fixed(p.scanline_alpha as int, 2), 'a', ']');
    lemma_pair_free_concat(a24, fixed(p.scanline_alpha as int, 2), 'a', ']');
    let a25 = a24 + fixed(p.scanline_alpha as int, 2);
    reveal_strlit(",");
    assert(pair_free(","@, 'a', ']'));
    lemma_pair_free_concat(a25, ","@, 'a', ']');
    let a26 = a25 + ","@;
    assert(a26 == vhs_scanline_grading(p, ti));
}

#[verifier::rlimit(60)]
proof fn lemma_vhs_soft_grading_pair_free_ab(p: VhsParams, profile: VhsColorProfile, ti: int)
    ensures
        pair_free(vhs_soft_grading(p, profile, ti), 'a', ']'),
{
    reveal(vhs_soft_grading);
    let c = vhs_color_of(p, profile);
    let soft_noise = if 2 + p.noise_strength / 4 < 8 { 2 + p.noise_strength / 4 } else { 8 };
    reveal_strlit("eq=contrast=");
    assert(pair_free("eq=contrast="@, 'a', ']'));
    let a0 = "eq=contrast="@;
    lemma_fixed_side_numeric(c.pre_contrast as int, 2, false);
    lemma_numeric_pair_free(fixed(c.pre_contrast as int, 2), 'a', ']');
    lemma_pair_free_concat(a0, fixed(c.pre_contrast as int, 2), 'a', ']');
    let a1 = a0 + fixed(c.pre_contrast as int, 2);
    reveal_strlit(":brightness=");
    assert(pair_free(":brightness="@, 'a', ']'));
    lemma_pair_free_concat(a1, ":brightness="@, 'a', ']');
    let a2 = a1 + ":brightness="@;
    lemma_fixed_side_numeric(c.pre_brightness as int, 3, pre_brightness_flips(profile, ti));
    lemma_numeric_pair_free(fixed_side(c.pre_brightness as int, 3, pre_brightness_flips(profile, ti)), 'a', ']');
    lemma_pair_free_concat(a2, fixed_side(c.pre_brightness as int, 3, pre_brightness_flips(profile, ti)), 'a', ']');
    let a3 = a2 + fixed_side(c.pre_brightness as int, 3, pre_brightness_flips(profile, ti));
    reveal_strlit(":saturation=");
    assert(pair_free(":saturation="@, 'a', ']'));
    lemma_pair_free_concat(a3, ":saturation="@, 'a', ']');
    let a4 = a3 + ":saturation="@;
    lemma_fixed_side_numeric(c.pre_saturation as int, 2, false);
    lemma_numeric_pair_free(fixed(c.pre_saturation as int, 2), 'a', ']');
    lemma_pair_free_concat(a4, fixed(c.pre_saturation as int, 2), 'a', ']');
    let a5 = a4 + fixed(c.pre_saturation as int, 2);
    reveal_strlit(":gamma=");
    assert(pair_free(":gamma="@, 'a', ']'));
    lemma_pair_free_concat(a5, ":gamma="@, 'a', ']');
    let a6 = a5 + ":gamma="@;
    lemma_fixed_side_numeric(c.pre_gamma as int, 2, false);
    lemma_numeric_pair_free(fixed(c.pre_gamma as int, 2), 'a', ']');
    lemma_pair_free_concat(a6, fixed(c.pre_gamma as int, 2), 'a', ']');
    let a7 = a6 + fixed(c.pre_gamma as int, 2);
    reveal_strlit(",hue=h=-8:s=");
    assert(pair_free(",hue=h=-8:s="@, 'a', ']'));
    lemma_pair_free_concat(a7, ",hue=h=-8:s="@, 'a', ']');
    let a8 = a7 + ",hue=h=-8:s="@;
    lemma_fixed_side_numeric(c.hue_saturation as int, 2, false);
    lemma_numeric_pair_free(fixed(c.hue_saturation as int, 2), 'a', ']');
    lemma_pair_free_concat(a8, fixed(c.hue_saturation as int, 2), 'a', ']');
    let a9 = a8 + fixed(c.hue_saturation as int, 2);
    reveal_strlit(",boxblur=luma_radius=");
    assert(pair_free(",boxblur=luma_radius="@, 'a', ']'));
    lemma_pair_free_concat(a9, ",boxblur=luma_radius="@, 'a', ']');
    let a10 = a9 + ",boxblur=luma_radius="@;
    lemma_fixed_side_numeric(p.blur_radius + 100_000_000, 2, tie_flips(TieValue::SoftBlur, ti));
    lemma_numeric_pair_free(fixed_side(p.blur_radius + 100_000_000, 2, tie_flips(TieValue::SoftBlur, ti)), 'a', ']');
    lemma_pair_free_concat(a10, fixed_side(p.blur_radius + 100_000_000, 2, tie_flips(TieValue::SoftBlur, ti)), 'a', ']');
    let a11 = a10 + fixed_side(p.blur_radius + 100_000_000, 2, tie_flips(TieValue::SoftBlur, ti));
    reveal_strlit(":luma_power=1:chroma_radius=");
    assert(pair_free(":luma_power=1:chroma_radius="@, 'a', ']'));
    lemma_pair_free_concat(a11, ":luma_power=1:chroma_radius="@, 'a', ']');
    let a12 = a11 + ":luma_power=1:chroma_radius="@;
    lemma_fixed_side_numeric(p.blur_radius + 145_000_000, 2, tie_flips(TieValue::SoftChromaBlur, ti));
    lemma_numeric_pair_free(fixed_side(p.blur_radius + 145_000_000, 2, tie_flips(TieValue::SoftChromaBlur, ti)), 'a', ']');
    lemma_pair_free_concat(a12, fixed_side(p.blur_radius + 145_000_000, 2, tie_flips(TieValue::SoftChromaBlur, ti)), 'a', ']');
    let a13 = a12 + fixed_side(p.blur_radius + 145_000_000, 2, tie_flips(TieValue::SoftChromaBlur, ti));
    reveal_strlit(":chroma_power=1,chromashift=cbh=");
    assert(pair_free(":chroma_power=1,chromashift=cbh="@, 'a', ']'));
    lemma_pair_free_concat(a13, ":chroma_power=1,chromashift=cbh="@, 'a', ']');
    let a14 = a13 + ":chroma_power=1,chromashift=cbh="@;
    lemma_int_str_numeric(p.chroma_shift as int);
    lemma_numeric_pair_free(int_str(p.chroma_shift as int), 'a', ']');
    lemma_pair_free_concat(a14, int_str(p.chroma_shift as int), 'a', ']');
    let a15 = a14 + int_str(p.chroma_shift as int);
    reveal_strlit(":crh=");
    assert(pair_free(":crh="@, 'a', ']'));
    lemma_pair_free_concat(a15, ":crh="@, 'a', ']');
    let a16 = a15 + ":crh="@;
    lemma_int_str_numeric(-p.chroma_shift);
    lemma_numeric_pair_free(int_str(-p.chroma_shift), 'a', ']');
    lemma_pair_free_concat(a16, int_str(-p.chroma_shift), 'a', ']');
    let a17 = a16 + int_str(-p.chroma_shift);
    reveal_strlit(":cbv=1:crv=-1:edge=smear,lagfun=decay=");
    assert(pair_free(":cbv=1:crv=-1:edge=smear,lagfun=decay="@, 'a', ']'));
    lemma_pair_free_concat(a17, ":cbv=1:crv=-1:edge=smear,lagfun=decay="@, 'a', ']');
    let a18 = a17 + ":cbv=1:crv=-1:edge=smear,lagfun=decay="@;
    lemma_fixed_side_numeric(88_000_000 + p.ghost_opacity * 20 / 100, 2, false);
    lemma_numeric_pair_free(fixed(88_000_000 + p.ghost_opacity * 20 / 100, 2), 'a', ']');
    lemma_pair_free_concat(a18, fixed(88_000_000 + p.ghost_opacity * 20 / 100, 2), 'a', ']');
    let a19 = a18 + fixed(88_000_000 + p.ghost_opacity * 20 / 100, 2);
    reveal_strlit(",noise=alls=");
    assert(pair_free(",noise=alls="@, 'a', ']'));
    lemma_pair_free_concat(a19, ",noise=alls="@, 'a', ']');
    let a20 = a19 + ",noise=alls="@;
    lemma_dec_numeric(soft_noise as nat);
    lemma_numeric_pair_free(dec(soft_noise as nat), 'a', ']');
    lemma_pair_free_concat(a20, dec(soft_noise as nat), 'a', ']');
    let a21 = a20 + dec(soft_noise as nat);
    reveal_strlit(":allf=t:all_seed=37,");
    assert(pair_free(":allf=t:all_seed=37,"@, 'a', ']'));
    lemma_pair_free_concat(a21, ":allf=t:all_seed=37,"@, 'a', ']');
    let a22 = a21 + ":allf=t:all_seed=37,"@;
    assert(a22 == vhs_soft_grading(p, profile, ti));
}

#[verifier::rlimit(60)]
proof fn lemma_vhs_soft_finish_pair_free_ab(p: VhsParams, profile: VhsColorProfile, ti: int)
    ensures
        pair_free(vhs_soft_finish(p, profile, ti), 'a', ']'),
{
    reveal(vhs_soft_finish);
    let c = vhs_color_of(p, profile);
    reveal_strlit(",format=rgba,rgbashift=rh=");
    assert(pair_free(",format=rgba,rgbashift=rh="@, 'a', ']'));
    let a0 = ",format=rgba,rgbashift=rh="@;
    lemma_int_str_numeric(p.rgb_shift as int);
    lemma_numeric_pair_free(int_str(p.rgb_shift as int), 'a', ']');
    lemma_pair_free_concat(a0, int_str(p.rgb_shift as int), 'a', ']');
    let a1 = a0 + int_str(p.rgb_shift as int);
    reveal_strlit(":bh=");
    assert(pair_free(":bh="@, 'a', ']'));
    lemma_pair_free_concat(a1, ":bh="@, 'a', ']');
    let a2 = a1 + ":bh="@;
    lemma_int_str_numeric(-p.rgb_shift);
    lemma_numeric_pair_free(int_str(-p.rgb_shift), 'a', ']');
    lemma_pair_free_concat(a2, int_str(-p.rgb_shift), 'a', ']');
    let a3 = a2 + int_str(-p.rgb_shift);
    reveal_strlit(":rv=1:bv=-1:edge=smear,boxblur=luma_radius=0.80:luma_power=1:chroma_radius=0.80:chroma_power=1,eq=contrast=");
    assert(pair_free(":rv=1:bv=-1:edge=smear,boxblur=luma_radius=0.80:luma_power=1:chroma_radius=0.80:chroma_power=1,eq=contrast="@, 'a', ']'));
    lemma_pair_free_concat(a3, ":rv=1:bv=-1:edge=smear,boxblur=luma_radius=0.80:luma_power=1:chroma_radius=0.80:chroma_power=1,eq=contrast="@, 'a', ']');
    let a4 = a3 + ":rv=1:bv=-1:edge=smear,boxblur=luma_radius=0.80:luma_power=1:chroma_radius=0.80:chroma_power=1,eq=contrast="@;
    lemma_fixed_side_numeric(c.post_contrast as int, 2, false);
    lemma_numeric_pair_free(fixed(c.post_contrast as int, 2), 'a', ']');
    lemma_pair_free_concat(a4, fixed(c.post_contrast as int, 2), 'a', ']');
    let a5 = a4 + fixed(c.post_contrast as int, 2);
    reveal_strlit(":brightness=");
    assert(pair_free(":brightness="@, 'a', ']'));
    lemma_pair_free_concat(a5, ":brightness="@, 'a', ']');
    let a6 = a5 + ":brightness="@;
    lemma_fixed_side_numeric(c.post_brightness as int, 3, post_brightness_flips(profile, ti));
    lemma_numeric_pair_free(fixed_side(c.post_brightness as int, 3, post_brightness_flips(profile, ti)), 'a', ']');
    lemma_pair_free_concat(a6, fixed_side(c.post_brightness as int, 3, post_brightness_flips(profile, ti)), 'a', ']');
    let a7 = a6 + fixed_side(c.post_brightness as int, 3, post_brightness_flips(profile, ti));
    reveal_strlit(":saturation=");
    assert(pair_free(":saturation="@, 'a', ']'));
    lemma_pair_free_concat(a7, ":saturation="@, 'a', ']');
    let a8 = a7 + ":saturation="@;
    lemma_fixed_side_numeric(c.post_saturation as int, 2, false);
    lemma_numeric_pair_free(fixed(c.post_saturation as int, 2), 'a', ']');
    lemma_pair_free_concat(a8, fixed(c.post_saturation as int, 2), 'a', ']');
    let a9 = a8 + fixed(c.post_saturation as int, 2);
    reveal_strlit(":gamma=");
    assert(pair_free(":gamma="@, 'a', ']'));
    lemma_pair_free_concat(a9, ":gamma="@, 'a', ']');
    let a10 = a9 + ":gamma="@;
    lemma_fixed_side_numeric(c.post_gamma as int, 2, false);
    lemma_numeric_pair_free(fixed(c.post_gamma as int, 2), 'a', ']');
    lemma_pair_free_concat(a10, fixed(c.post_gamma as int, 2), 'a', ']');
    let a11 = a10 + fixed(c.post_gamma as int, 2);
    reveal_strlit(",vignette=angle=PI/4,");
    assert(pair_free(",vignette=angle=PI/4,"@, 'a', ']'));
    lemma_pair_free_concat(a11, ",vignette=angle=PI/4,"@, 'a', ']');
    let a12 = a11 + ",vignette=angle=PI/4,"@;
    assert(a12 == vhs_soft_finish(p, profile, ti));
}

/// Between plain labels the VHS chain never has 'a' directly followed by ']'.
pub proof fn lemma_vhs_chain_pair_free_ab(
    input_label: Seq<char>,
    output_label: Seq<char>,
    intensity: int,
    scanlines: bool,
    profile: VhsColorProfile,
)
    requires
        pair_free(input_label, 'a', ']'),
        pair_free(output_label, 'a', ']'),
    ensures
        pair_free(vhs_chain(input_label, output_label, intensity, scanlines, profile), 'a', ']'),
{
    reveal(vhs_chain);
    reveal_strlit("scale=trunc(ih*4/3/2)*2:trunc(ih/2)*2,setsar=1,");
    reveal_strlit("format=yuv420p");
    let ti = clamp100(intensity);
    let p = vhs_params_of(ti);
    let h = vhs_head();
    let fmt = "format=yuv420p"@;
    let t = tracking_distortion(p, ti);
    lemma_tracking_distortion_pair_free_ab(p, ti);
    lemma_tracking_distortion_ends(p, ti);
    let stages = if scanlines { vhs_scanline_stages(p, ti) } else { vhs_soft_stages(p, profile, ti) };
    if scanlines {
        let g = vhs_scanline_grading(p, ti);
        let v = ",vignette=angle=PI/5,"@;
        reveal_strlit(",vignette=angle=PI/5,");
        lemma_vhs_scanline_grading_pair_free_ab(p, ti);
        lemma_vhs_scanline_grading_ends(p, ti);
        assert(pair_free(v, 'a', ']'));
        lemma_pair_free_concat(g, t, 'a', ']');
        lemma_pair_free_concat(g + t, v, 'a', ']');
        assert(stages == g + t + v);
    } else {
        let g = vhs_soft_grading(p, profile, ti);
        let f = vhs_soft_finish(p, profile, ti);
        lemma_vhs_soft_grading_pair_free_ab(p, profile, ti);
        lemma_vhs_soft_finish_pair_free_ab(p, profile, ti);
        lemma_vhs_soft_grading_ends(p, profile, ti);
        lemma_vhs_soft_finish_ends(p, profile, ti);
        lemma_pair_free_concat(g, t, 'a', ']');
        lemma_pair_free_concat(g + t, f, 'a', ']');
        assert(stages == g + t + f);
    }
    assert(pair_free(h, 'a', ']'));
    assert(pair_free(fmt, 'a', ']'));
    lemma_pair_free_concat(h, stages, 'a', ']');
    lemma_pair_free_concat(h + stages, fmt, 'a', ']');
    let body = h + stages + fmt;
    assert(body == vhs_body(ti, scanlines, profile));
    lemma_pair_free_concat(input_label, body, 'a', ']');
    lemma_pair_free_concat(input_label + body, output_label, 'a', ']');
}

} // verus!
