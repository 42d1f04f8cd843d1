//! Effect parameters that sit exactly halfway between two printed values.
//!
//! The effect parameters are interpolated by intensity and printed with a
//! few decimals. The editor evaluates them in binary floating point, where
//! a decimal like 0.0105 is not exact: the evaluated value lies a hair above
//! or below the halfway point, and the printed digit follows it. At most
//! intensities that agrees with rounding the exact value ties-to-even; the
//! intensities below are those where it does not.

use vstd::prelude::*;

verus! {

/// A printed effect parameter that has rounding ties.
#[derive(Clone, Copy, Debug, PartialEq, Eq, Structural)]
pub enum TieValue {
    /// VHS blur radius (two decimals).
    Blur,
    /// VHS chroma blur radius of the scanline look (two decimals).
    ChromaBlur,
    /// VHS blur radius of the soft look (two decimals).
    SoftBlur,
    /// VHS chroma blur radius of the soft look (two decimals).
    SoftChromaBlur,
    /// VHS ghosting opacity (two decimals).
    Ghosting,
    /// VHS brightness (three decimals).
    Brightness,
    /// Opacity of the second tracking band (two decimals).
    SecondaryTracking,
    /// Brightness after the smear in the faded profile (three decimals).
    FadedPostBrightness,
    /// Brightness before the smear in the preserved profile (three decimals).
    PreservedPreBrightness,
    /// Radio fade depth (three decimals).
    RadioFade,
    /// Radio crackle probability (six decimals).
    RadioCrackleChance,
}

/// Whether, at clamped intensity `t`, the printed value goes to the odd
/// last digit at its rounding tie (where ties-to-even would pick the even one).
pub open spec fn tie_flips(v: TieValue, t: int) -> bool {
    match v {
        TieValue::Blur => t == 35 || t == 85,
        TieValue::ChromaBlur => t == 45 || t == 55 || t == 85 || t == 95,
        TieValue::SoftBlur => t == 5 || t == 35 || t == 75 || t == 85,
        TieValue::SoftChromaBlur => t == 5 || t == 35 || t == 45 || t == 55 || t == 65,
        TieValue::Ghosting => t == 25 || t == 75,
        TieValue::Brightness => t == 2 || t == 6 || t == 10 || t == 22 || t == 26 || t == 34 || t == 42
            || t == 58 || t == 66 || t == 70 || t == 90 || t == 98,
        TieValue::SecondaryTracking => t == 0,
        TieValue::FadedPostBrightness => t == 0,
        TieValue::PreservedPreBrightness => t == 100,
        TieValue::RadioFade => t == 50,
        TieValue::RadioCrackleChance => t == 25,
    }
}

/// Computes `tie_flips`.
pub fn tie_flips_at(v: TieValue, t: i64) -> (r: bool)
    ensures
        r == tie_flips(v, t as int),
{
    match v {
        TieValue::Blur => t == 35 || t == 85,
        TieValue::ChromaBlur => t == 45 || t == 55 || t == 85 || t == 95,
        TieValue::SoftBlur => t == 5 || t == 35 || t == 75 || t == 85,
        TieValue::SoftChromaBlur => t == 5 || t == 35 || t == 45 || t == 55 || t == 65,
        TieValue::Ghosting => t == 25 || t == 75,
        TieValue::Brightness => t == 2 || t == 6 || t == 10 || t == 22 || t == 26 || t == 34 || t == 42
            || t == 58 || t == 66 || t == 70 || t == 90 || t == 98,
        TieValue::SecondaryTracking => t == 0,
        TieValue::FadedPostBrightness => t == 0,
        TieValue::PreservedPreBrightness => t == 100,
        TieValue::RadioFade => t == 50,
        TieValue::RadioCrackleChance => t == 25,
    }
}

} // verus!
