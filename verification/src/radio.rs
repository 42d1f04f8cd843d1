//! The "radio" audio effect: band-limited, driven, fading sound with hiss
//! and crackle, interpolated from AM (intensity 0) to short-wave (100).

use vstd::prelude::*;
use crate::text::{
    dec, fixed, fixed_side, pair_free, secs3, views, push_fixed, push_fixed_side, push_secs3,
    lemma_fixed_side_numeric, lemma_numeric_pair_free, lemma_pair_free_concat, lemma_secs3_numeric,
};
use crate::ties::{tie_flips, tie_flips_at, TieValue};
use crate::vhs::clamp100;

verus! {

/// Parameters of the radio effect, all fixed-point with eight decimal
/// places (see `FIXED_ONE`): cut-offs in Hz, tilt in dB, linear drive,
/// fade depth, noise and crackle amplitudes, and crackle probability.
#[derive(Clone, Copy, Debug, PartialEq, Eq, Structural)]
pub struct RadioParams {
    pub low_cut: i64,
    pub high_cut: i64,
    pub tilt_db: i64,
    pub drive: i64,
    pub fade_depth: i64,
    pub noise_amp: i64,
    pub crackle_amp: i64,
    pub crackle_chance: i64,
}

/// Radio parameters at clamped intensity `t` (0..=100): each is
/// `AM value + t/100 * (short-wave value - AM value)`.
pub open spec fn radio_params_of(t: int) -> RadioParams {
    RadioParams {
        low_cut: (20_000_000_000 + 150_000_000 * t) as i64,
        high_cut: (450_000_000_000 - 1_700_000_000 * t) as i64,
        tilt_db: (-300_000_000 - 2_000_000 * t) as i64,
        drive: (220_000_000 + 800_000 * t) as i64,
        fade_depth: (10_800_000 + 207_000 * t) as i64,
        noise_amp: (1_500_000 + 20_000 * t) as i64,
        crackle_amp: (60_000_000 + 220_000 * t) as i64,
        crackle_chance: (4_100 + 118 * t) as i64,
    }
}

/// Radio effect parameters for an intensity; intensities above 100 act as 100.
pub fn radio_params(intensity: u32) -> (p: RadioParams)
    ensures
        p == radio_params_of(clamp100(intensity as int)),
{
    let t: i64 = if intensity > 100 { 100 } else { intensity as i64 };
    RadioParams {
        low_cut: 20_000_000_000 + 150_000_000 * t,
        high_cut: 450_000_000_000 - 1_700_000_000 * t,
        tilt_db: -300_000_000 - 2_000_000 * t,
        drive: 220_000_000 + 800_000 * t,
        fade_depth: 10_800_000 + 207_000 * t,
        noise_amp: 1_500_000 + 20_000 * t,
        crackle_amp: 60_000_000 + 220_000 * t,
        crackle_chance: 4_100 + 118 * t,
    }
}

/// The filter graph pieces of the radio effect applied to `input_chain`:
/// the equalised, driven and fading signal labelled `eq_label`, hiss
/// labelled `noise_label`, crackle labelled `crackle_label` (when the
/// crackle is audible), their mix, and the compressed, limited mono result
/// labelled `out_label`. `duration_ms` bounds the generated noise sources.
#[verifier::opaque]
pub open spec fn radio_filters(
    input_chain: Seq<char>,
    duration_ms: int,
    intensity: int,
    eq_label: Seq<char>,
    noise_label: Seq<char>,
    crackle_label: Seq<char>,
    out_label: Seq<char>,
) -> Seq<Seq<char>> {
    let p = radio_params_of(clamp100(intensity));
    let mix_label = out_label + "_mix"@;
    let band = ",highpass=f="@ + fixed(p.low_cut as int, 0) + ",lowpass=f="@ + fixed(p.high_cut as int, 0);
    let eq = input_chain + "aformat=channel_layouts=mono,aresample=22050,highshelf=f=1500:g="@
        + fixed(p.tilt_db as int, 1) + band + ",volume="@ + fixed(p.drive as int, 2)
        + ",asoftclip=type=tanh:threshold=0.95:output=0.90,volume='1-"@
        + fixed_side(p.fade_depth as int, 3, tie_flips(TieValue::RadioFade, clamp100(intensity)))
        + "*(0.5-0.5*(0.7*sin(2*PI*0.17*t)+0.3*sin(2*PI*0.73*t)))':eval=frame["@ + eq_label + "]"@;
    let noise = "anoisesrc=d="@ + secs3(duration_ms) + ":c=white:r=22050:a="@
        + fixed(p.noise_amp as int, 4) + band + "["@ + noise_label + "]"@;
    let tail = "["@ + mix_label
        + "]acompressor=threshold=0.5:ratio=3.0:attack=5:release=80:makeup=1.26,alimiter=limit=0.95,aformat=channel_layouts=mono["@
        + out_label + "]"@;
    if p.crackle_amp > 10_000 && p.crackle_chance > 100 {
        let crackle = "aevalsrc='if(lt(random(0),"@ + fixed_side(p.crackle_chance as int, 6, tie_flips(TieValue::RadioCrackleChance, clamp100(intensity))) + "),"@
            + fixed(p.crackle_amp as int, 4) + "*(2*random(1)-1),0)':s=22050:d="@
            + secs3(duration_ms) + band + "["@ + crackle_label + "]"@;
        let mix = "["@ + eq_label + "]["@ + noise_label + "]["@ + crackle_label
            + "]amix=inputs=3:duration=first:normalize=0["@ + mix_label + "]"@;
        seq![eq, noise, crackle, mix, tail]
    } else {
        let mix = "["@ + eq_label + "]["@ + noise_label
            + "]amix=inputs=2:duration=first:normalize=0["@ + mix_label + "]"@;
        seq![eq, noise, mix, tail]
    }
}

fn push_band(s: &mut String, p: &RadioParams)
    ensures
        final(s)@ == old(s)@ + (",highpass=f="@ + fixed(p.low_cut as int, 0) + ",lowpass=f="@
            + fixed(p.high_cut as int, 0)),
{
    let ghost start = s@;
    s.push_str(",highpass=f=");
    push_fixed(s, p.low_cut, 0);
    s.push_str(",lowpass=f=");
    push_fixed(s, p.high_cut, 0);
    assert(s@ =~= start + (",highpass=f="@ + fixed(p.low_cut as int, 0) + ",lowpass=f="@
        + fixed(p.high_cut as int, 0)));
}

/// Appends the radio-effect filters for `input_chain` (see `radio_filters`).
pub fn push_radio_effect_filters(
    filters: &mut Vec<String>,
    input_chain: &str,
    duration_ms: i64,
    intensity: u32,
    eq_label: &str,
    noise_label: &str,
    crackle_label: &str,
    out_label: &str,
)
    ensures
        views(final(filters)@) == views(old(filters)@) + radio_filters(
            input_chain@,
            duration_ms as int,
            intensity as int,
            eq_label@,
            noise_label@,
            crackle_label@,
            out_label@,
        ),
{
    let p = radio_params(intensity);
    let t: i64 = if intensity > 100 { 100 } else { intensity as i64 };
    let fade_flip = tie_flips_at(TieValue::RadioFade, t);
    let chance_flip = tie_flips_at(TieValue::RadioCrackleChance, t);
    proof {
        reveal(radio_filters);
    }
    let ghost spec_pieces = radio_filters(
        input_chain@, duration_ms as int, intensity as int, eq_label@, noise_label@,
        crackle_label@, out_label@);
    let mut mix_label = out_label.to_owned();
    mix_label.push_str("_mix");

    let mut eq = input_chain.to_owned();
    eq.push_str("aformat=channel_layouts=mono,aresample=22050,highshelf=f=1500:g=");
    push_fixed(&mut eq, p.tilt_db, 1);
    push_band(&mut eq, &p);
    eq.push_str(",volume=");
    push_fixed(&mut eq, p.drive, 2);
    eq.push_str(",asoftclip=type=tanh:threshold=0.95:output=0.90,volume='1-");
    push_fixed_side(&mut eq, p.fade_depth, 3, fade_flip);
    eq.push_str("*(0.5-0.5*(0.7*sin(2*PI*0.17*t)+0.3*sin(2*PI*0.73*t)))':eval=frame[");
    eq.push_str(eq_label);
    eq.push_str("]");
    assert(eq@ =~= spec_pieces[0]);

    let mut noise = "anoisesrc=d=".to_owned();
    push_secs3(&mut noise, duration_ms);
    noise.push_str(":c=white:r=22050:a=");
    push_fixed(&mut noise, p.noise_amp, 4);
    push_band(&mut noise, &p);
    noise.push_str("[");
    noise.push_str(noise_label);
    noise.push_str("]");
    assert(noise@ =~= spec_pieces[1]);

    let mut tail = "[".to_owned();
    tail.push_str(mix_label.as_str());
    tail.push_str("]acompressor=threshold=0.5:ratio=3.0:attack=5:release=80:makeup=1.26,alimiter=limit=0.95,aformat=channel_layouts=mono[");
    tail.push_str(out_label);
    tail.push_str("]");

    let ghost before = views(filters@);
    filters.push(eq);
    filters.push(noise);
    if p.crackle_amp > 10_000 && p.crackle_chance > 100 {
        let mut crackle = "aevalsrc='if(lt(random(0),".to_owned();
        push_fixed_side(&mut crackle, p.crackle_chance, 6, chance_flip);
        crackle.push_str("),");
        push_fixed(&mut crackle, p.crackle_amp, 4);
        crackle.push_str("*(2*random(1)-1),0)':s=22050:d=");
        push_secs3(&mut crackle, duration_ms);
        push_band(&mut crackle, &p);
        crackle.push_str("[");
        crackle.push_str(crackle_label);
        crackle.push_str("]");
        assert(crackle@ =~= spec_pieces[2]);
        let mut mix = "[".to_owned();
        mix.push_str(eq_label);
        mix.push_str("][");
        mix.push_str(noise_label);
        mix.push_str("][");
        mix.push_str(crackle_label);
        mix.push_str("]amix=inputs=3:duration=first:normalize=0[");
        mix.push_str(mix_label.as_str());
        mix.push_str("]");
        assert(mix@ =~= spec_pieces[3]);
        assert(tail@ =~= spec_pieces[4]);
        filters.push(crackle);
        filters.push(mix);
        filters.push(tail);
    } else {
        let mut mix = "[".to_owned();
        mix.push_str(eq_label);
        mix.push_str("][");
        mix.push_str(noise_label);
        mix.push_str("]amix=inputs=2:duration=first:normalize=0[");
        mix.push_str(mix_label.as_str());
        mix.push_str("]");
        assert(mix@ =~= spec_pieces[2]);
        assert(tail@ =~= spec_pieces[3]);
        filters.push(mix);
        filters.push(tail);
    }
    assert(views(filters@) =~= before + spec_pieces);
}

/// Intensities above 100 give the same parameters as 100.
pub proof fn law_radio_intensity_saturates(intensity: int)
    requires
        intensity >= 100,
    ensures
        radio_params_of(clamp100(intensity)) == radio_params_of(clamp100(100)),
{
}

/// Towards short-wave the band narrows and the sound gets more driven,
/// more fading, noisier and more crackly.
pub proof fn law_radio_rougher_with_intensity(a: int, b: int)
    requires
        0 <= a < b <= 100,
    ensures
        ({
            let p = radio_params_of(clamp100(a));
            let q = radio_params_of(clamp100(b));
            &&& q.low_cut > p.low_cut
            &&& q.high_cut < p.high_cut
            &&& q.tilt_db < p.tilt_db
            &&& q.drive > p.drive
            &&& q.fade_depth > p.fade_depth
            &&& q.noise_amp > p.noise_amp
            &&& q.crackle_amp > p.crackle_amp
            &&& q.crackle_chance > p.crackle_chance
        }),
{
}

/// At every intensity the crackle source is part of the mix, so the radio
/// effect always produces five filters.
pub proof fn law_radio_always_crackles(
    input_chain: Seq<char>,
    duration_ms: int,
    intensity: int,
    eq_label: Seq<char>,
    noise_label: Seq<char>,
    crackle_label: Seq<char>,
    out_label: Seq<char>,
)
    requires
        intensity >= 0,
    ensures
        radio_filters(input_chain, duration_ms, intensity, eq_label, noise_label, crackle_label, out_label).len() == 5,
{
    reveal(radio_filters);
}

/// No radio filter has '[' followed by '0' when neither its input chain
/// nor its labels do and no label starts with '0'.
#[verifier::rlimit(60)]
pub proof fn lemma_radio_filters_pair_free(
    input_chain: Seq<char>,
    duration_ms: int,
    intensity: int,
    eq_label: Seq<char>,
    noise_label: Seq<char>,
    crackle_label: Seq<char>,
    out_label: Seq<char>,
)
    requires
        pair_free(input_chain, '[', '0'),
        pair_free(eq_label, '[', '0') && eq_label.len() > 0 && eq_label[0] != '0',
        pair_free(noise_label, '[', '0') && noise_label.len() > 0 && noise_label[0] != '0',
        pair_free(crackle_label, '[', '0') && crackle_label.len() > 0 && crackle_label[0] != '0',
        pair_free(out_label, '[', '0') && out_label.len() > 0 && out_label[0] != '0',
    ensures
        forall|k: int| 0 <= k < radio_filters(input_chain, duration_ms, intensity, eq_label, noise_label, crackle_label, out_label).len()
            ==> pair_free(#[trigger] radio_filters(input_chain, duration_ms, intensity, eq_label, noise_label, crackle_label, out_label)[k], '[', '0'),
{
    reveal(radio_filters);
    let p = radio_params_of(clamp100(intensity));
    let m0 = out_label;
    reveal_strlit("_mix");
    assert(pair_free("_mix"@, '[', '0'));
    lemma_pair_free_concat(m0, "_mix"@, '[', '0');
    let m1 = m0 + "_mix"@;
    assert(m1 == out_label + "_mix"@);
    let mix_label = out_label + "_mix"@;
    assert(mix_label[0] == out_label[0]);
    reveal_strlit(",highpass=f=");
    assert(pair_free(",highpass=f="@, '[', '0'));
    let b0 = ",highpass=f="@;
    lemma_fixed_side_numeric(p.low_cut as int, 0, false);
    lemma_numeric_pair_free(fixed(p.low_cut as int, 0), '[', '0');
    lemma_pair_free_concat(b0, fixed(p.low_cut as int, 0), '[', '0');
    let b1 = b0 + fixed(p.low_cut as int, 0);
    reveal_strlit(",lowpass=f=");
    assert(pair_free(",lowpass=f="@, '[', '0'));
    lemma_pair_free_concat(b1, ",lowpass=f="@, '[', '0');
    let b2 = b1 + ",lowpass=f="@;
    lemma_fixed_side_numeric(p.high_cut as int, 0, false);
    lemma_numeric_pair_free(fixed(p.high_cut as int, 0), '[', '0');
    lemma_pair_free_concat(b2, fixed(p.high_cut as int, 0), '[', '0');
    let b3 = b2 + fixed(p.high_cut as int, 0);
    assert(b3 == ",highpass=f="@ + fixed(p.low_cut as int, 0) + ",lowpass=f="@ + fixed(p.high_cut as int, 0));
    let band = ",highpass=f="@ + fixed(p.low_cut as int, 0) + ",lowpass=f="@ + fixed(p.high_cut as int, 0);
    assert(band.len() > 0 && band[0] == ',');
    let eq_0 = input_chain;
    reveal_strlit("aformat=channel_layouts=mono,aresample=22050,highshelf=f=1500:g=");
    assert(pair_free("aformat=channel_layouts=mono,aresample=22050,highshelf=f=1500:g="@, '[', '0'));
    lemma_pair_free_concat(eq_0, "aformat=channel_layouts=mono,aresample=22050,highshelf=f=1500:g="@, '[', '0');
    let eq_1 = eq_0 + "aformat=channel_layouts=mono,aresample=22050,highshelf=f=1500:g="@;
    lemma_fixed_side_numeric(p.tilt_db as int, 1, false);
    lemma_numeric_pair_free(fixed(p.tilt_db as int, 1), '[', '0');
    lemma_pair_free_concat(eq_1, fixed(p.tilt_db as int, 1), '[', '0');
    let eq_2 = eq_1 + fixed(p.tilt_db as int, 1);
    lemma_pair_free_concat(eq_2, band, '[', '0');
    let eq_3 = eq_2 + band;
    reveal_strlit(",volume=");
    assert(pair_free(",volume="@, '[', '0'));
    lemma_pair_free_concat(eq_3, ",volume="@, '[', '0');
    let eq_4 = eq_3 + ",volume="@;
    lemma_fixed_side_numeric(p.drive as int, 2, false);
    lemma_numeric_pair_free(fixed(p.drive as int, 2), '[', '0');
    lemma_pair_free_concat(eq_4, fixed(p.drive as int, 2), '[', '0');
    let eq_5 = eq_4 + fixed(p.drive as int, 2);
    reveal_strlit(",asoftclip=type=tanh:threshold=0.95:output=0.90,volume='1-");
    assert(pair_free(",asoftclip=type=tanh:threshold=0.95:output=0.90,volume='1-"@, '[', '0'));
    lemma_pair_free_concat(eq_5, ",asoftclip=type=tanh:threshold=0.95:output=0.90,volume='1-"@, '[', '0');
    let eq_6 = eq_5 + ",asoftclip=type=tanh:threshold=0.95:output=0.90,volume='1-"@;
    lemma_fixed_side_numeric(p.fade_depth as int, 3, tie_flips(TieValue::RadioFade, clamp100(intensity)));
    lemma_numeric_pair_free(fixed_side(p.fade_depth as int, 3, tie_flips(TieValue::RadioFade, clamp100(intensity))), '[', '0');
    lemma_pair_free_concat(eq_6, fixed_side(p.fade_depth as int, 3, tie_flips(TieValue::RadioFade, clamp100(intensity))), '[', '0');
    let eq_7 = eq_6 + fixed_side(p.fade_depth as int, 3, tie_flips(TieValue::RadioFade, clamp100(intensity)));
    reveal_strlit("*(0.5-0.5*(0.7*sin(2*PI*0.17*t)+0.3*sin(2*PI*0.73*t)))':eval=frame[");
    assert(pair_free("*(0.5-0.5*(0.7*sin(2*PI*0.17*t)+0.3*sin(2*PI*0.73*t)))':eval=frame["@, '[', '0'));
    lemma_pair_free_concat(eq_7, "*(0.5-0.5*(0.7*sin(2*PI*0.17*t)+0.3*sin(2*PI*0.73*t)))':eval=frame["@, '[', '0');
    let eq_8 = eq_7 + "*(0.5-0.5*(0.7*sin(2*PI*0.17*t)+0.3*sin(2*PI*0.73*t)))':eval=frame["@;
    lemma_pair_free_concat(eq_8, eq_label, '[', '0');
    let eq_9 = eq_8 + eq_label;
    reveal_strlit("]");
    assert(pair_free("]"@, '[', '0'));
    lemma_pair_free_concat(eq_9, "]"@, '[', '0');
    let eq_10 = eq_9 + "]"@;
    assert(eq_10 == input_chain + "aformat=channel_layouts=mono,aresample=22050,highshelf=f=1500:g="@ + fixed(p.tilt_db as int, 1) + band + ",volume="@ + fixed(p.drive as int, 2) + ",asoftclip=type=tanh:threshold=0.95:output=0.90,volume='1-"@ + fixed_side(p.fade_depth as int, 3, tie_flips(TieValue::RadioFade, clamp100(intensity))) + "*(0.5-0.5*(0.7*sin(2*PI*0.17*t)+0.3*sin(2*PI*0.73*t)))':eval=frame["@ + eq_label + "]"@);
    reveal_strlit("anoisesrc=d=");
    assert(pair_free("anoisesrc=d="@, '[', '0'));
    let noise_0 = "anoisesrc=d="@;
    lemma_secs3_numeric(duration_ms);
    lemma_numeric_pair_free(secs3(duration_ms), '[', '0');
    lemma_pair_free_concat(noise_0, secs3(duration_ms), '[', '0');
    let noise_1 = noise_0 + secs3(duration_ms);
    reveal_strlit(":c=white:r=22050:a=");
    assert(pair_free(":c=white:r=22050:a="@, '[', '0'));
    lemma_pair_free_concat(noise_1, ":c=white:r=22050:a="@, '[', '0');
    let noise_2 = noise_1 + ":c=white:r=22050:a="@;
    lemma_fixed_side_numeric(p.noise_amp as int, 4, false);
    lemma_numeric_pair_free(fixed(p.noise_amp as int, 4), '[', '0');
    lemma_pair_free_concat(noise_2, fixed(p.noise_amp as int, 4), '[', '0');
    let noise_3 = noise_2 + fixed(p.noise_amp as int, 4);
    lemma_pair_free_concat(noise_3, band, '[', '0');
    let noise_4 = noise_3 + band;
    reveal_strlit("[");
    assert(pair_free("["@, '[', '0'));
    lemma_pair_free_concat(noise_4, "["@, '[', '0');
    let noise_5 = noise_4 + "["@;
    lemma_pair_free_concat(noise_5, noise_label, '[', '0');
    let noise_6 = noise_5 + noise_label;
    reveal_strlit("]");
    assert(pair_free("]"@, '[', '0'));
    lemma_pair_free_concat(noise_6, "]"@, '[', '0');
    let noise_7 = noise_6 + "]"@;
    assert(noise_7 == "anoisesrc=d="@ + secs3(duration_ms) + ":c=white:r=22050:a="@
        + fixed(p.noise_amp as int, 4) + band + "["@ + noise_label + "]"@);
    reveal_strlit("[");
    assert(pair_free("["@, '[', '0'));
    let tail_0 = "["@;
    lemma_pair_free_concat(tail_0, mix_label, '[', '0');
    let tail_1 = tail_0 + mix_label;
    reveal_strlit("]acompressor=threshold=0.5:ratio=3.0:attack=5:release=80:makeup=1.26,alimiter=limit=0.95,aformat=channel_layouts=mono[");
    assert(pair_free("]acompressor=threshold=0.5:ratio=3.0:attack=5:release=80:makeup=1.26,alimiter=limit=0.95,aformat=channel_layouts=mono["@, '[', '0'));
    lemma_pair_free_concat(tail_1, "]acompressor=threshold=0.5:ratio=3.0:attack=5:release=80:makeup=1.26,alimiter=limit=0.95,aformat=channel_layouts=mono["@, '[', '0');
    let tail_2 = tail_1 + "]acompressor=threshold=0.5:ratio=3.0:attack=5:release=80:makeup=1.26,alimiter=limit=0.95,aformat=channel_layouts=mono["@;
    lemma_pair_free_concat(tail_2, out_label, '[', '0');
    let tail_3 = tail_2 + out_label;
    reveal_strlit("]");
    assert(pair_free("]"@, '[', '0'));
    lemma_pair_free_concat(tail_3, "]"@, '[', '0');
    let tail_4 = tail_3 + "]"@;
    assert(tail_4 == "["@ + mix_label
        + "]acompressor=threshold=0.5:ratio=3.0:attack=5:release=80:makeup=1.26,alimiter=limit=0.95,aformat=channel_layouts=mono["@
        + out_label + "]"@);
    if p.crackle_amp > 10_000 && p.crackle_chance > 100 {
        reveal_strlit("aevalsrc='if(lt(random(0),");
        assert(pair_free("aevalsrc='if(lt(random(0),"@, '[', '0'));
        let cr0 = "aevalsrc='if(lt(random(0),"@;
        lemma_fixed_side_numeric(p.crackle_chance as int, 6, tie_flips(TieValue::RadioCrackleChance, clamp100(intensity)));
        lemma_numeric_pair_free(fixed_side(p.crackle_chance as int, 6, tie_flips(TieValue::RadioCrackleChance, clamp100(intensity))), '[', '0');
        lemma_pair_free_concat(cr0, fixed_side(p.crackle_chance as int, 6, tie_flips(TieValue::RadioCrackleChance, clamp100(intensity))), '[', '0');
        let cr1 = cr0 + fixed_side(p.crackle_chance as int, 6, tie_flips(TieValue::RadioCrackleChance, clamp100(intensity)));
        reveal_strlit("),");
        assert(pair_free("),"@, '[', '0'));
        lemma_pair_free_concat(cr1, "),"@, '[', '0');
        let cr2 = cr1 + "),"@;
        lemma_fixed_side_numeric(p.crackle_amp as int, 4, false);
        lemma_numeric_pair_free(fixed(p.crackle_amp as int, 4), '[', '0');
        lemma_pair_free_concat(cr2, fixed(p.crackle_amp as int, 4), '[', '0');
        let cr3 = cr2 + fixed(p.crackle_amp as int, 4);
        reveal_strlit("*(2*random(1)-1),0)':s=22050:d=");
        assert(pair_free("*(2*random(1)-1),0)':s=22050:d="@, '[', '0'));
        lemma_pair_free_concat(cr3, "*(2*random(1)-1),0)':s=22050:d="@, '[', '0');
        let cr4 = cr3 + "*(2*random(1)-1),0)':s=22050:d="@;
        lemma_secs3_numeric(duration_ms);
        lemma_numeric_pair_free(secs3(duration_ms), '[', '0');
        lemma_pair_free_concat(cr4, secs3(duration_ms), '[', '0');
        let cr5 = cr4 + secs3(duration_ms);
        lemma_pair_free_concat(cr5, band, '[', '0');
        let cr6 = cr5 + band;
        reveal_strlit("[");
        assert(pair_free("["@, '[', '0'));
        lemma_pair_free_concat(cr6, "["@, '[', '0');
        let cr7 = cr6 + "["@;
        lemma_pair_free_concat(cr7, crackle_label, '[', '0');
        let cr8 = cr7 + crackle_label;
        reveal_strlit("]");
        assert(pair_free("]"@, '[', '0'));
        lemma_pair_free_concat(cr8, "]"@, '[', '0');
        let cr9 = cr8 + "]"@;
        assert(cr9 == ("aevalsrc='if(lt(random(0),"@ + fixed_side(p.crackle_chance as int, 6, tie_flips(TieValue::RadioCrackleChance, clamp100(intensity))) + "),"@
            + fixed(p.crackle_amp as int, 4) + "*(2*random(1)-1),0)':s=22050:d="@
            + secs3(duration_ms) + band + "["@ + crackle_label + "]"@));
        reveal_strlit("[");
        assert(pair_free("["@, '[', '0'));
        let mx0 = "["@;
        lemma_pair_free_concat(mx0, eq_label, '[', '0');
        let mx1 = mx0 + eq_label;
        reveal_strlit("][");
        assert(pair_free("]["@, '[', '0'));
        lemma_pair_free_concat(mx1, "]["@, '[', '0');
        let mx2 = mx1 + "]["@;
        lemma_pair_free_concat(mx2, noise_label, '[', '0');
        let mx3 = mx2 + noise_label;
        reveal_strlit("][");
        assert(pair_free("]["@, '[', '0'));
        lemma_pair_free_concat(mx3, "]["@, '[', '0');
        let mx4 = mx3 + "]["@;
        lemma_pair_free_concat(mx4, crackle_label, '[', '0');
        let mx5 = mx4 + crackle_label;
        reveal_strlit("]amix=inputs=3:duration=first:normalize=0[");
        assert(pair_free("]amix=inputs=3:duration=first:normalize=0["@, '[', '0'));
        lemma_pair_free_concat(mx5, "]amix=inputs=3:duration=first:normalize=0["@, '[', '0');
        let mx6 = mx5 + "]amix=inputs=3:duration=first:normalize=0["@;
        lemma_pair_free_concat(mx6, mix_label, '[', '0');
        let mx7 = mx6 + mix_label;
        reveal_strlit("]");
        assert(pair_free("]"@, '[', '0'));
        lemma_pair_free_concat(mx7, "]"@, '[', '0');
        let mx8 = mx7 + "]"@;
        assert(mx8 == ("["@ + eq_label + "]["@ + noise_label + "]["@ + crackle_label
            + "]amix=inputs=3:duration=first:normalize=0["@ + mix_label + "]"@));
    } else {
        reveal_strlit("[");
        assert(pair_free("["@, '[', '0'));
        let my0 = "["@;
        lemma_pair_free_concat(my0, eq_label, '[', '0');
        let my1 = my0 + eq_label;
        reveal_strlit("][");
        assert(pair_free("]["@, '[', '0'));
        lemma_pair_free_concat(my1, "]["@, '[', '0');
        let my2 = my1 + "]["@;
        lemma_pair_free_concat(my2, noise_label, '[', '0');
        let my3 = my2 + noise_label;
        reveal_strlit("]amix=inputs=2:duration=first:normalize=0[");
        assert(pair_free("]amix=inputs=2:duration=first:normalize=0["@, '[', '0'));
        lemma_pair_free_concat(my3, "]amix=inputs=2:duration=first:normalize=0["@, '[', '0');
        let my4 = my3 + "]amix=inputs=2:duration=first:normalize=0["@;
        lemma_pair_free_concat(my4, mix_label, '[', '0');
        let my5 = my4 + mix_label;
        reveal_strlit("]");
        assert(pair_free("]"@, '[', '0'));
        lemma_pair_free_concat(my5, "]"@, '[', '0');
        let my6 = my5 + "]"@;
        assert(my6 == ("["@ + eq_label + "]["@ + noise_label
            + "]amix=inputs=2:duration=first:normalize=0["@ + mix_label + "]"@));
    }
}

} // verus!
