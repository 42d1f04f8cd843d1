//! FFmpeg argument lists for exporting a segment: the audio graph (original
//! audio, dubbed tracks, radio effects, final mix) and the video graph
//! (burned subtitles, VHS look).

use vstd::prelude::*;
use crate::text::{
    dec, join, replace_all, round_div, secs3, trim_brackets, views, zpad, push_dec, push_zpad,
    push_secs3, secs3_string, dec_string, join_strings, replace_str, str_eq, trim_bracket_chars,
};
use crate::text::{
    contains, numeric, pair_free, lemma_dec_first_nonzero, lemma_join_ends_with_last, lemma_dec_numeric, lemma_join_avoids,
    lemma_numeric_pair_free, lemma_pair_free_avoids, lemma_pair_free_concat, lemma_replace_all_pair_free,
    lemma_zpad_numeric,
};
use crate::radio::{radio_filters, push_radio_effect_filters, lemma_radio_filters_pair_free};
use crate::vhs::{
    vhs_chain, build_vhs_filter_chain, parse_vhs_color_profile, VhsColorProfile, lemma_vhs_chain_pair_free_ab,
    law_vhs_labels_only_at_ends,
};
use crate::paths::{filter_path, escape_path_for_filter, lemma_filter_path_pair_free_ab};
use crate::timeline::{ms_ok, MAX_MS};
use vstd::arithmetic::power2::{pow2, lemma2_to64, lemma_pow2_unfold, lemma_pow2_strictly_increases};

verus! {

/// A dubbed audio clip placed on a segment. Times are milliseconds; the
/// volume is a binary64 floating-point number given by its IEEE 754 bits
/// (1.0 is `0x3FF0_0000_0000_0000`).
pub struct AudioTrack {
    pub id: String,
    pub segment_id: String,
    pub segment_start: i64,
    pub segment_end: i64,
    pub file_path: String,
    pub audio_source_start: i64,
    pub audio_source_end: i64,
    pub volume: u64,
    pub radio_effect: bool,
    pub radio_intensity: u32,
}

/// A duration: the difference of two in-range times.
pub open spec fn span_ok(d: i64) -> bool {
    -2 * MAX_MS <= d <= 2 * MAX_MS
}

/// The times of a track are within range.
pub open spec fn track_ok(t: AudioTrack) -> bool {
    ms_ok(t.audio_source_start) && ms_ok(t.audio_source_end)
}

/// The sign bit of a binary64 value given by its bits.
pub open spec fn f64_negative(bits: u64) -> bool {
    bits >= 0x8000_0000_0000_0000
}

/// The biased exponent field of a binary64 value given by its bits.
pub open spec fn f64_exponent(bits: u64) -> int {
    ((bits / 0x10_0000_0000_0000) % 2048) as int
}

/// The fraction field of a binary64 value given by its bits.
pub open spec fn f64_fraction(bits: u64) -> int {
    (bits % 0x10_0000_0000_0000) as int
}

/// The non-negative value `n / 2^d` with two decimals, rounded to nearest,
/// ties to even.
pub open spec fn two_decimals(n: nat, d: nat) -> Seq<char> {
    let q = round_div(n * 100, pow2(d));
    dec(q / 100) + "."@ + zpad(q % 100, 2)
}

/// A volume, given by its binary64 bits, limited to 0..=2 and written with
/// two decimals: the exact binary value rounded to nearest, ties to even.
/// NaN stays "NaN", a negative zero stays "-0.00", any other negative value
/// becomes "0.00" and anything above 2 becomes "2.00".
pub open spec fn volume_text(bits: u64) -> Seq<char> {
    let e = f64_exponent(bits);
    let f = f64_fraction(bits);
    if e == 2047 && f != 0 {
        "NaN"@
    } else if f64_negative(bits) {
        if e == 0 && f == 0 { "-0.00"@ } else { "0.00"@ }
    } else if e == 2047 {
        "2.00"@
    } else {
        // the value is m / 2^(1075 - e1)
        let m = if e == 0 { f } else { f + 0x10_0000_0000_0000 };
        let e1 = if e == 0 { 1 } else { e };
        if e1 > 1075 || m > 2 * pow2((1075 - e1) as nat) {
            "2.00"@
        } else {
            two_decimals(m as nat, (1075 - e1) as nat)
        }
    }
}

fn pow2_u64(d: u64) -> (p: u64)
    requires
        d < 64,
    ensures
        p as nat == pow2(d as nat),
{
    proof {
        lemma2_to64();
    }
    let mut p: u64 = 1;
    let mut i: u64 = 0;
    while i < d
        invariant
            i <= d < 64,
            p as nat == pow2(i as nat),
            pow2(64) == 0x1_0000_0000_0000_0000,
        decreases d - i,
    {
        proof {
            lemma_pow2_unfold((i + 1) as nat);
            lemma_pow2_strictly_increases((i + 1) as nat, 64);
        }
        p = p * 2;
        i = i + 1;
    }
    p
}

/// Appends the volume text of `bits` (see `volume_text`).
fn push_volume(s: &mut String, bits: u64)
    ensures
        final(s)@ == old(s)@ + volume_text(bits),
{
    let ghost start = s@;
    let e: u64 = (bits / 0x10_0000_0000_0000) % 2048;
    let f: u64 = bits % 0x10_0000_0000_0000;
    if e == 2047 && f != 0 {
        s.push_str("NaN");
        return;
    }
    if bits >= 0x8000_0000_0000_0000 {
        if e == 0 && f == 0 {
            s.push_str("-0.00");
        } else {
            s.push_str("0.00");
        }
        return;
    }
    if e == 2047 {
        s.push_str("2.00");
        return;
    }
    let m: u64 = if e == 0 { f } else { f + 0x10_0000_0000_0000 };
    let e1: u64 = if e == 0 { 1 } else { e };
    if e1 > 1075 {
        s.push_str("2.00");
        return;
    }
    let d: u64 = 1075 - e1;
    if d >= 64 {
        proof {
            lemma2_to64();
            if d > 64 {
                lemma_pow2_strictly_increases(64, d as nat);
            }
            assert(m < 0x20_0000_0000_0000);
            assert(round_div(m as nat * 100, pow2(d as nat)) == 0) by (nonlinear_arith)
                requires
                    m < 0x20_0000_0000_0000,
                    pow2(d as nat) >= 0x1_0000_0000_0000_0000,
            {
                assert((m as nat * 100) / pow2(d as nat) == 0);
                assert((m as nat * 100) % pow2(d as nat) == m as nat * 100);
            }
            reveal_strlit("0.00");
            reveal_strlit(".");
            assert(dec(0) == seq!['0']);
            assert(zpad(0, 2) =~= seq!['0', '0']);
            assert(!(m > 2 * pow2(d as nat)));
        }
        s.push_str("0.00");
        assert(s@ =~= start + volume_text(bits));
        return;
    }
    let p = pow2_u64(d);
    if (m as u128) > 2 * (p as u128) {
        s.push_str("2.00");
        assert(s@ =~= start + volume_text(bits));
        return;
    }
    let n: u128 = (m as u128) * 100;
    let q0: u128 = n / (p as u128);
    let r: u128 = n % (p as u128);
    let q: u128 = if (r > (p as u128) - r) || (r == (p as u128) - r && q0 % 2 == 1) { q0 + 1 } else { q0 };
    assert(q as nat == round_div(m as nat * 100, pow2(d as nat)));
    assert(q0 <= 200) by (nonlinear_arith)
        requires
            m <= 2 * p,
            q0 as int == (m as int * 100) / (p as int),
            p > 0,
    {
    }
    assert(q <= 201);
    push_dec(s, (q / 100) as u64);
    proof {
        reveal_strlit(".");
    }
    s.push('.');
    push_zpad(s, (q % 100) as u64, 2);
    assert(s@ =~= start + volume_text(bits));
}

/// Name of the output label of dubbed track `j`.
pub open spec fn dub_name(j: int) -> Seq<char> {
    "dub"@ + dec(j as nat)
}

/// Dubbed track `j` (input `j + 1`) reset to start at zero, at its volume.
pub open spec fn dub_base(j: int, t: AudioTrack) -> Seq<char> {
    "["@ + dec((j + 1) as nat) + ":a]asetpts=PTS-STARTPTS,volume="@ + volume_text(t.volume)
}

/// The smaller of two integers.
pub open spec fn min_int(a: int, b: int) -> int {
    if a < b { a } else { b }
}

/// Filters of dubbed track `j`: the radio effect bounded by the shorter of
/// the clip and the segment, or just the volume stage.
pub open spec fn dub_filters(j: int, t: AudioTrack, seg_duration: int) -> Seq<Seq<char>> {
    if t.radio_effect {
        radio_filters(
            dub_base(j, t) + ","@,
            min_int(t.audio_source_end - t.audio_source_start, seg_duration),
            t.radio_intensity as int,
            dub_name(j) + "_eq"@,
            dub_name(j) + "_n"@,
            dub_name(j) + "_c"@,
            dub_name(j),
        )
    } else {
        seq![dub_base(j, t) + "["@ + dub_name(j) + "]"@]
    }
}

/// Filters of all dubbed tracks, in order.
pub open spec fn all_dub_filters(tracks: Seq<&AudioTrack>, seg_duration: int) -> Seq<Seq<char>>
    decreases tracks.len(),
{
    if tracks.len() == 0 {
        Seq::empty()
    } else {
        all_dub_filters(tracks.drop_last(), seg_duration) + dub_filters(
            tracks.len() - 1,
            *tracks.last(),
            seg_duration,
        )
    }
}

/// Filters of the original audio: the radio effect when requested and the
/// input has audio, nothing otherwise.
pub open spec fn original_filters(
    original_radio: bool,
    intensity: int,
    seg_duration: int,
    input_has_audio: bool,
) -> Seq<Seq<char>> {
    if original_radio && input_has_audio {
        radio_filters("[0:a]"@, seg_duration, intensity, "orig_eq"@, "orig_noise"@, "orig_crackle"@, "orig_out"@)
    } else {
        Seq::empty()
    }
}

/// Audio streams to mix: the original audio (processed or raw) when the
/// input has audio, then one label per dubbed track.
pub open spec fn audio_labels(original_radio: bool, input_has_audio: bool, n: nat) -> Seq<Seq<char>> {
    let first = if original_radio && input_has_audio {
        seq!["[orig_out]"@]
    } else if input_has_audio {
        seq!["[0:a]"@]
    } else {
        Seq::empty()
    };
    first + Seq::new(n, |j: int| "["@ + dub_name(j) + "]"@)
}

/// Whether any stream gets the radio effect (the final mix is then mono).
pub open spec fn has_radio(tracks: Seq<&AudioTrack>, original_radio: bool, input_has_audio: bool) -> bool {
    (original_radio && input_has_audio) || exists|j: int| 0 <= j < tracks.len() && tracks[j].radio_effect
}

/// The final audio stage: several streams are mixed into `[aout]` (forced
/// to mono after radio processing); a single processed stream has its
/// label in the last filter renamed to `[aout]`.
pub open spec fn mixed_filters(filters: Seq<Seq<char>>, labels: Seq<Seq<char>>, radio: bool) -> Seq<Seq<char>> {
    let n = labels.len();
    if n > 1 {
        let mix_in = join(labels, ""@);
        if radio {
            filters + seq![
                mix_in + "amix=inputs="@ + dec(n) + ":duration=first:dropout_transition=0:normalize=0[aout_mix]"@,
                "[aout_mix]aformat=channel_layouts=mono[aout]"@,
            ]
        } else {
            filters + seq![mix_in + "amix=inputs="@ + dec(n) + ":duration=first:dropout_transition=0[aout]"@]
        }
    } else if n == 1 && labels[0] != "[0:a]"@ && filters.len() > 0 {
        filters.update(
            filters.len() - 1,
            replace_all(filters.last(), "["@ + trim_brackets(labels[0]) + "]"@, "[aout]"@),
        )
    } else {
        filters
    }
}

/// Video filters: subtitles burned from `srt` and/or the VHS look, ending in `[vout]`.
pub open spec fn video_filters(
    srt: Option<Seq<char>>,
    vhs_effect: bool,
    vhs_intensity: int,
    vhs_scanlines: bool,
    profile: VhsColorProfile,
) -> Seq<Seq<char>> {
    match srt {
        Some(path) => {
            let sub = "[0:v]subtitles='"@ + filter_path(path) + "'"@;
            if vhs_effect {
                seq![sub + "[vsub]"@, vhs_chain("[vsub]"@, "[vout]"@, vhs_intensity, vhs_scanlines, profile)]
            } else {
                seq![sub + "[vout]"@]
            }
        },
        None => {
            if vhs_effect {
                seq![vhs_chain("[0:v]"@, "[vout]"@, vhs_intensity, vhs_scanlines, profile)]
            } else {
                Seq::empty()
            }
        },
    }
}

/// The complete audio and video filter graph pieces, in order.
#[verifier::opaque]
pub open spec fn export_filters(
    tracks: Seq<&AudioTrack>,
    original_radio: bool,
    original_radio_intensity: int,
    seg_duration: int,
    seg_srt: Option<Seq<char>>,
    input_has_audio: bool,
    vhs_effect: bool,
    vhs_intensity: int,
    vhs_scanlines: bool,
    profile: VhsColorProfile,
) -> Seq<Seq<char>> {
    let audio = original_filters(original_radio, original_radio_intensity, seg_duration, input_has_audio)
        + all_dub_filters(tracks, seg_duration);
    let labels = audio_labels(original_radio, input_has_audio, tracks.len());
    mixed_filters(audio, labels, has_radio(tracks, original_radio, input_has_audio))
        + video_filters(seg_srt, vhs_effect, vhs_intensity, vhs_scanlines, profile)
}

/// The output-options part of the arguments: maps, duration, codecs.
#[verifier::opaque]
pub open spec fn export_output_args(
    has_vfilter: bool,
    has_aout: bool,
    radio: bool,
    seg_duration: int,
    compress: bool,
    quality: int,
    merge: bool,
    vhs_effect: bool,
) -> Seq<Seq<char>> {
    let crf = if vhs_effect {
        if compress { dec(quality as nat) } else { "18"@ }
    } else if compress || merge {
        dec(quality as nat)
    } else {
        "18"@
    };
    let video_codec = if merge || compress || has_vfilter {
        seq!["-c:v"@, "libx264"@, "-preset"@, "medium"@, "-crf"@, crf]
    } else {
        seq!["-c:v"@, "copy"@]
    };
    seq![
        "-map"@,
        if has_vfilter { "[vout]"@ } else { "0:v"@ },
        "-map"@,
        if has_aout { "[aout]"@ } else { "0:a?"@ },
        "-t"@,
        secs3(seg_duration),
    ] + video_codec + seq!["-c:a"@, "aac"@, "-b:a"@, "192k"@] + (if radio {
        seq!["-ac"@, "1"@]
    } else {
        Seq::empty()
    }) + seq!["-avoid_negative_ts"@, "make_zero"@]
}

/// All arguments added for a segment that needs a filter graph.
pub open spec fn export_filter_args(
    tracks: Seq<&AudioTrack>,
    original_radio: bool,
    original_radio_intensity: int,
    seg_duration: int,
    seg_srt: Option<Seq<char>>,
    compress: bool,
    quality: int,
    merge: bool,
    input_has_audio: bool,
    vhs_effect: bool,
    vhs_intensity: int,
    vhs_scanlines: bool,
    vhs_color_profile: Seq<char>,
) -> Seq<Seq<char>> {
    let profile = if vhs_color_profile == "preserved"@ {
        VhsColorProfile::Preserved
    } else {
        VhsColorProfile::Faded
    };
    let labels = audio_labels(original_radio, input_has_audio, tracks.len());
    let has_aout = labels.len() > 1 || (labels.len() == 1 && labels[0] != "[0:a]"@);
    let radio = has_radio(tracks, original_radio, input_has_audio);
    seq![
        "-filter_complex"@,
        join(
            export_filters(
                tracks,
                original_radio,
                original_radio_intensity,
                seg_duration,
                seg_srt,
                input_has_audio,
                vhs_effect,
                vhs_intensity,
                vhs_scanlines,
                profile,
            ),
            ";"@,
        ),
    ] + export_output_args(seg_srt is Some || vhs_effect, has_aout, radio, seg_duration, compress, quality, merge, vhs_effect)
}

fn push_dub_filters(filters: &mut Vec<String>, j: usize, t: &AudioTrack, seg_duration: i64)
    requires
        j < usize::MAX,
        track_ok(*t),
        span_ok(seg_duration),
    ensures
        views(final(filters)@) == views(old(filters)@) + dub_filters(j as int, *t, seg_duration as int),
{
    let mut base = "[".to_owned();
    push_dec(&mut base, (j + 1) as u64);
    base.push_str(":a]asetpts=PTS-STARTPTS,volume=");
    push_volume(&mut base, t.volume);
    assert(base@ =~= dub_base(j as int, *t));
    let mut name = "dub".to_owned();
    push_dec(&mut name, j as u64);
    assert(name@ =~= dub_name(j as int));
    if t.radio_effect {
        let audio_duration = t.audio_source_end - t.audio_source_start;
        let effective = if audio_duration < seg_duration { audio_duration } else { seg_duration };
        let mut chain = base.clone();
        chain.push_str(",");
        let mut eq_label = name.clone();
        eq_label.push_str("_eq");
        let mut noise_label = name.clone();
        noise_label.push_str("_n");
        let mut crackle_label = name.clone();
        crackle_label.push_str("_c");
        push_radio_effect_filters(
            filters,
            chain.as_str(),
            effective,
            t.radio_intensity,
            eq_label.as_str(),
            noise_label.as_str(),
            crackle_label.as_str(),
            name.as_str(),
        );
    } else {
        let ghost before = views(filters@);
        let mut f = base;
        f.push_str("[");
        f.push_str(name.as_str());
        f.push_str("]");
        filters.push(f);
        assert(views(filters@) =~= before + dub_filters(j as int, *t, seg_duration as int));
    }
}

/// The audio part of the graph and the labels of the streams to mix.
fn audio_filter_graph(
    tracks: &[&AudioTrack],
    original_radio: bool,
    original_radio_intensity: u32,
    seg_duration: i64,
    input_has_audio: bool,
) -> (res: (Vec<String>, Vec<String>))
    requires
        forall|j: int| 0 <= j < tracks@.len() ==> track_ok(*tracks@[j]),
        span_ok(seg_duration),
    ensures
        views(res.0@) == original_filters(original_radio, original_radio_intensity as int, seg_duration as int, input_has_audio)
            + all_dub_filters(tracks@, seg_duration as int),
        views(res.1@) == audio_labels(original_radio, input_has_audio, tracks@.len()),
{
    let mut filters: Vec<String> = Vec::new();
    let mut labels: Vec<String> = Vec::new();
    if original_radio && input_has_audio {
        push_radio_effect_filters(
            &mut filters, "[0:a]", seg_duration, original_radio_intensity,
            "orig_eq", "orig_noise", "orig_crackle", "orig_out");
        labels.push("[orig_out]".to_owned());
    } else if input_has_audio {
        labels.push("[0:a]".to_owned());
    }
    let ghost orig = views(filters@);
    let ghost first = views(labels@);
    assert(orig =~= original_filters(original_radio, original_radio_intensity as int, seg_duration as int, input_has_audio));
    assert(first.len() + Seq::<Seq<char>>::empty().len() == first.len());
    let mut j: usize = 0;
    assert(tracks@.take(0) =~= Seq::<&AudioTrack>::empty());
    while j < tracks.len()
        invariant
            j <= tracks@.len(),
            forall|k: int| 0 <= k < tracks@.len() ==> track_ok(*tracks@[k]),
            span_ok(seg_duration),
            views(filters@) == orig + all_dub_filters(tracks@.take(j as int), seg_duration as int),
            views(labels@) == first + Seq::new(j as nat, |k: int| "["@ + dub_name(k) + "]"@),
        decreases tracks@.len() - j,
    {
        let t: &AudioTrack = tracks[j];
        push_dub_filters(&mut filters, j, t, seg_duration);
        assert(tracks@.take((j + 1) as int).drop_last() =~= tracks@.take(j as int));
        let mut label = "[".to_owned();
        label.push_str("dub");
        push_dec(&mut label, j as u64);
        label.push_str("]");
        assert(label@ =~= "["@ + dub_name(j as int) + "]"@);
        let ghost old_labels = views(labels@);
        labels.push(label);
        assert(views(labels@) =~= old_labels.push("["@ + dub_name(j as int) + "]"@));
        assert(views(filters@) =~= orig + all_dub_filters(tracks@.take((j + 1) as int), seg_duration as int));
        assert(views(labels@) =~= first + Seq::new((j + 1) as nat, |k: int| "["@ + dub_name(k) + "]"@));
        j = j + 1;
    }
    assert(tracks@.take(tracks@.len() as int) =~= tracks@);
    assert(views(labels@) =~= audio_labels(original_radio, input_has_audio, tracks@.len()));
    (filters, labels)
}

/// The final audio stage (see `mixed_filters`).
fn finish_audio_mix(filters: &mut Vec<String>, labels: &Vec<String>, radio: bool)
    ensures
        views(final(filters)@) == mixed_filters(views(old(filters)@), views(labels@), radio),
{
    let ghost before = views(filters@);
    let n = labels.len();
    if n > 1 {
        let mut mix = join_strings(labels, "");
        mix.push_str("amix=inputs=");
        push_dec(&mut mix, n as u64);
        if radio {
            mix.push_str(":duration=first:dropout_transition=0:normalize=0[aout_mix]");
            filters.push(mix);
            filters.push("[aout_mix]aformat=channel_layouts=mono[aout]".to_owned());
        } else {
            mix.push_str(":duration=first:dropout_transition=0[aout]");
            filters.push(mix);
        }
        assert(views(filters@) =~= mixed_filters(before, views(labels@), radio));
    } else if n == 1 && !str_eq(labels[0].as_str(), "[0:a]") && filters.len() > 0 {
        let inner = trim_bracket_chars(labels[0].as_str());
        let mut pat = "[".to_owned();
        pat.push_str(inner.as_str());
        pat.push_str("]");
        proof {
            reveal_strlit("[");
        }
        let last = filters.len() - 1;
        let renamed = replace_str(filters[last].as_str(), pat.as_str(), "[aout]");
        filters.set(last, renamed);
        assert(views(filters@) =~= mixed_filters(before, views(labels@), radio));
    }
}

/// Appends the video filters (see `video_filters`).
fn push_video_filters(
    filters: &mut Vec<String>,
    seg_srt: Option<&str>,
    vhs_effect: bool,
    vhs_intensity: u32,
    vhs_scanlines: bool,
    profile: VhsColorProfile,
)
    ensures
        views(final(filters)@) == views(old(filters)@) + video_filters(
            match seg_srt { Some(p) => Some(p@), None => None },
            vhs_effect,
            vhs_intensity as int,
            vhs_scanlines,
            profile,
        ),
{
    let ghost before = views(filters@);
    let ghost srt_view: Option<Seq<char>> = match seg_srt { Some(p) => Some(p@), None => None };
    match seg_srt {
        Some(srt) => {
            let mut sub = "[0:v]subtitles='".to_owned();
            let escaped = escape_path_for_filter(srt);
            sub.push_str(escaped.as_str());
            sub.push_str("'");
            let ghost sub_spec = "[0:v]subtitles='"@ + filter_path(srt@) + "'"@;
            assert(sub@ =~= sub_spec);
            if vhs_effect {
                sub.push_str("[vsub]");
                let chain = build_vhs_filter_chain("[vsub]", "[vout]", vhs_intensity, vhs_scanlines, profile);
                filters.push(sub);
                filters.push(chain);
                assert(views(filters@) =~= before + seq![sub_spec + "[vsub]"@, chain@]);
            } else {
                sub.push_str("[vout]");
                filters.push(sub);
                assert(views(filters@) =~= before + seq![sub_spec + "[vout]"@]);
            }
        },
        None => {
            if vhs_effect {
                let chain = build_vhs_filter_chain("[0:v]", "[vout]", vhs_intensity, vhs_scanlines, profile);
                filters.push(chain);
                assert(views(filters@) =~= before + seq![chain@]);
            } else {
                assert(views(filters@) =~= before + Seq::<Seq<char>>::empty());
            }
        },
    }
}

fn push_output_args(
    args: &mut Vec<String>,
    has_vfilter: bool,
    has_aout: bool,
    radio: bool,
    seg_duration: i64,
    compress: bool,
    quality: u32,
    merge: bool,
    vhs_effect: bool,
)
    ensures
        views(final(args)@) == views(old(args)@) + export_output_args(
            has_vfilter, has_aout, radio, seg_duration as int, compress, quality as int, merge, vhs_effect),
{
    reveal(export_output_args);
    let ghost before = views(args@);
    args.push("-map".to_owned());
    args.push(if has_vfilter { "[vout]".to_owned() } else { "0:v".to_owned() });
    args.push("-map".to_owned());
    args.push(if has_aout { "[aout]".to_owned() } else { "0:a?".to_owned() });
    args.push("-t".to_owned());
    args.push(secs3_string(seg_duration));
    let crf = if vhs_effect {
        if compress { dec_string(quality as u64) } else { "18".to_owned() }
    } else if compress || merge {
        dec_string(quality as u64)
    } else {
        "18".to_owned()
    };
    if merge || compress || has_vfilter {
        args.push("-c:v".to_owned());
        args.push("libx264".to_owned());
        args.push("-preset".to_owned());
        args.push("medium".to_owned());
        args.push("-crf".to_owned());
        args.push(crf);
    } else {
        args.push("-c:v".to_owned());
        args.push("copy".to_owned());
    }
    args.push("-c:a".to_owned());
    args.push("aac".to_owned());
    args.push("-b:a".to_owned());
    args.push("192k".to_owned());
    if radio {
        args.push("-ac".to_owned());
        args.push("1".to_owned());
    }
    args.push("-avoid_negative_ts".to_owned());
    args.push("make_zero".to_owned());
    assert(views(args@) =~= before + export_output_args(
        has_vfilter, has_aout, radio, seg_duration as int, compress, quality as int, merge, vhs_effect));
}

fn any_radio_track(tracks: &[&AudioTrack]) -> (r: bool)
    ensures
        r == exists|j: int| 0 <= j < tracks@.len() && tracks@[j].radio_effect,
{
    let mut j: usize = 0;
    while j < tracks.len()
        invariant
            j <= tracks@.len(),
            forall|k: int| 0 <= k < j ==> !tracks@[k].radio_effect,
        decreases tracks@.len() - j,
    {
        if tracks[j].radio_effect {
            return true;
        }
        j = j + 1;
    }
    false
}

/// Appends to `args` the filter-graph arguments of one exported segment:
/// `-filter_complex` with the audio and video graph, the stream maps, the
/// duration, the codecs (re-encoding with `quality` as CRF when merging or
/// compressing, CRF 18 when only filtering, copying the video otherwise;
/// with the VHS look the CRF is `quality` only when compressing), and mono
/// output whenever a radio effect is applied. `seg_duration` is in
/// milliseconds.
pub fn build_export_filter_cmd(
    args: &mut Vec<String>,
    overlapping_audio: &[&AudioTrack],
    original_radio: bool,
    original_radio_intensity: u32,
    _seg_start: i64,
    seg_duration: i64,
    seg_srt: Option<&str>,
    compress: bool,
    quality: u32,
    merge: bool,
    input_has_audio: bool,
    vhs_effect: bool,
    vhs_intensity: u32,
    vhs_scanlines: bool,
    vhs_color_profile: &str,
)
    requires
        forall|j: int| 0 <= j < overlapping_audio@.len() ==> track_ok(*overlapping_audio@[j]),
        span_ok(seg_duration),
    ensures
        views(final(args)@) == views(old(args)@) + export_filter_args(
            overlapping_audio@,
            original_radio,
            original_radio_intensity as int,
            seg_duration as int,
            match seg_srt { Some(p) => Some(p@), None => None },
            compress,
            quality as int,
            merge,
            input_has_audio,
            vhs_effect,
            vhs_intensity as int,
            vhs_scanlines,
            vhs_color_profile@,
        ),
{
    let ghost before = views(args@);
    let ghost srt_view: Option<Seq<char>> = match seg_srt { Some(p) => Some(p@), None => None };
    let radio = (original_radio && input_has_audio) || any_radio_track(overlapping_audio);
    let (mut filters, labels) = audio_filter_graph(
        overlapping_audio, original_radio, original_radio_intensity, seg_duration, input_has_audio);
    finish_audio_mix(&mut filters, &labels, radio);
    let has_aout = labels.len() > 1 || (labels.len() == 1 && !str_eq(labels[0].as_str(), "[0:a]"));
    let has_vfilter = seg_srt.is_some() || vhs_effect;
    let profile = parse_vhs_color_profile(vhs_color_profile);
    push_video_filters(&mut filters, seg_srt, vhs_effect, vhs_intensity, vhs_scanlines, profile);
    let filter_complex = join_strings(&filters, ";");
    let ghost spec_labels = audio_labels(original_radio, input_has_audio, overlapping_audio@.len());
    assert(radio == has_radio(overlapping_audio@, original_radio, input_has_audio));
    assert(has_aout == (spec_labels.len() > 1 || (spec_labels.len() == 1 && spec_labels[0] != "[0:a]"@)));
    assert(views(filters@) == export_filters(
        overlapping_audio@, original_radio, original_radio_intensity as int, seg_duration as int,
        srt_view, input_has_audio, vhs_effect, vhs_intensity as int, vhs_scanlines, profile)) by {
        reveal(export_filters);
    }

    args.push("-filter_complex".to_owned());
    args.push(filter_complex);
    let ghost mid = views(args@);
    let ghost out = export_output_args(
        has_vfilter, has_aout, radio, seg_duration as int, compress, quality as int, merge, vhs_effect);
    let ghost head = seq!["-filter_complex"@, filter_complex@];
    push_output_args(args, has_vfilter, has_aout, radio, seg_duration, compress, quality, merge, vhs_effect);
    assert(mid =~= before + head);
    assert(views(args@) =~= before + (head + out));
    assert(has_vfilter == (srt_view is Some || vhs_effect));
    assert(head + out == export_filter_args(
        overlapping_audio@, original_radio, original_radio_intensity as int, seg_duration as int,
        srt_view, compress, quality as int, merge, input_has_audio, vhs_effect,
        vhs_intensity as int, vhs_scanlines, vhs_color_profile@));
}

/// Input arguments of the dubbed tracks: each clip seeked to its source
/// start and limited to its source length.
pub open spec fn audio_input_args(tracks: Seq<&AudioTrack>) -> Seq<Seq<char>>
    decreases tracks.len(),
{
    if tracks.len() == 0 {
        Seq::empty()
    } else {
        let a = tracks.last();
        audio_input_args(tracks.drop_last()) + seq![
            "-ss"@,
            secs3(a.audio_source_start as int),
            "-t"@,
            secs3(a.audio_source_end - a.audio_source_start),
            "-i"@,
            a.file_path@,
        ]
    }
}

/// The `-vf` option burning `srt`, when there is one.
pub open spec fn subtitle_vf_args(srt: Option<Seq<char>>) -> Seq<Seq<char>> {
    match srt {
        Some(p) => seq!["-vf"@, "subtitles='"@ + filter_path(p) + "'"@],
        None => Seq::empty(),
    }
}

/// The complete FFmpeg argument list that cuts one segment: seek into the
/// input, add the dubbed tracks, then either the filter-graph arguments
/// (when any audio or video processing is needed), a re-encode (merging or
/// compressing with CRF `quality`, burning subtitles with CRF 18), or a
/// stream copy; the output file comes last. The original audio gets the
/// radio effect only when the input has audio.
pub open spec fn segment_args(
    input_path: Seq<char>,
    seg_start: int,
    seg_end: int,
    tracks: Seq<&AudioTrack>,
    seg_srt: Option<Seq<char>>,
    input_has_audio: bool,
    original_radio: bool,
    original_radio_intensity: int,
    merge: bool,
    compress: bool,
    quality: int,
    burn_subtitles: bool,
    vhs_effect: bool,
    vhs_intensity: int,
    vhs_scanlines: bool,
    vhs_color_profile: Seq<char>,
    out_file: Seq<char>,
) -> Seq<Seq<char>> {
    let effective_radio = original_radio && input_has_audio;
    let audio_processing = tracks.len() > 0 || effective_radio;
    let video_processing = seg_srt is Some || vhs_effect;
    let duration = seg_end - seg_start;
    let head = seq!["-y"@, "-ss"@, secs3(seg_start), "-i"@, input_path] + audio_input_args(tracks);
    let encode = seq!["-t"@, secs3(duration), "-c:v"@, "libx264"@, "-preset"@, "medium"@, "-crf"@];
    let body = if audio_processing || video_processing {
        export_filter_args(
            tracks, effective_radio, original_radio_intensity, duration, seg_srt, compress, quality,
            merge, input_has_audio, vhs_effect, vhs_intensity, vhs_scanlines, vhs_color_profile)
    } else if merge || compress {
        encode + seq![dec(quality as nat), "-c:a"@, "aac"@, "-b:a"@, "192k"@, "-avoid_negative_ts"@,
            "make_zero"@, "-map"@, "0"@] + subtitle_vf_args(seg_srt)
    } else if burn_subtitles {
        encode + seq!["18"@, "-c:a"@, "aac"@, "-b:a"@, "192k"@, "-avoid_negative_ts"@, "make_zero"@]
            + subtitle_vf_args(seg_srt)
    } else {
        seq!["-t"@, secs3(duration), "-c"@, "copy"@, "-avoid_negative_ts"@, "make_zero"@, "-map"@, "0"@]
    };
    head + body + seq![out_file]
}

fn push_subtitle_vf(args: &mut Vec<String>, seg_srt: Option<&str>)
    ensures
        views(final(args)@) == views(old(args)@) + subtitle_vf_args(
            match seg_srt { Some(p) => Some(p@), None => None }),
{
    let ghost before = views(args@);
    if let Some(srt) = seg_srt {
        args.push("-vf".to_owned());
        let mut vf = "subtitles='".to_owned();
        vf.push_str(escape_path_for_filter(srt).as_str());
        vf.push_str("'");
        args.push(vf);
    }
    assert(views(args@) =~= before + subtitle_vf_args(match seg_srt { Some(p) => Some(p@), None => None }));
}

fn push_encode_head(args: &mut Vec<String>, duration: i64)
    ensures
        views(final(args)@) == views(old(args)@) + seq!["-t"@, secs3(duration as int), "-c:v"@, "libx264"@,
            "-preset"@, "medium"@, "-crf"@],
{
    let ghost before = views(args@);
    args.push("-t".to_owned());
    args.push(secs3_string(duration));
    args.push("-c:v".to_owned());
    args.push("libx264".to_owned());
    args.push("-preset".to_owned());
    args.push("medium".to_owned());
    args.push("-crf".to_owned());
    assert(views(args@) =~= before + seq!["-t"@, secs3(duration as int), "-c:v"@, "libx264"@,
        "-preset"@, "medium"@, "-crf"@]);
}

fn push_audio_inputs(args: &mut Vec<String>, tracks: &[&AudioTrack])
    requires
        forall|j: int| 0 <= j < tracks@.len() ==> track_ok(*tracks@[j]),
    ensures
        views(final(args)@) == views(old(args)@) + audio_input_args(tracks@),
{
    let ghost before = views(args@);
    let mut j: usize = 0;
    assert(tracks@.take(0) =~= Seq::<&AudioTrack>::empty());
    while j < tracks.len()
        invariant
            j <= tracks@.len(),
            forall|k: int| 0 <= k < tracks@.len() ==> track_ok(*tracks@[k]),
            views(args@) == before + audio_input_args(tracks@.take(j as int)),
        decreases tracks@.len() - j,
    {
        let a: &AudioTrack = tracks[j];
        assert(track_ok(*tracks@[j as int]));
        let ghost mid = views(args@);
        args.push("-ss".to_owned());
        args.push(secs3_string(a.audio_source_start));
        args.push("-t".to_owned());
        args.push(secs3_string(a.audio_source_end - a.audio_source_start));
        args.push("-i".to_owned());
        args.push(a.file_path.clone());
        let ghost expected = seq!["-ss"@, secs3(a.audio_source_start as int), "-t"@,
            secs3(a.audio_source_end - a.audio_source_start), "-i"@, a.file_path@];
        assert(views(args@) =~= mid + expected);
        assert(tracks@.take((j + 1) as int).drop_last() =~= tracks@.take(j as int));
        assert(tracks@.take((j + 1) as int).last() == a);
        assert(audio_input_args(tracks@.take((j + 1) as int))
            == audio_input_args(tracks@.take(j as int)) + expected);
        assert(views(args@) =~= before + audio_input_args(tracks@.take((j + 1) as int)));
        j = j + 1;
    }
    assert(tracks@.take(tracks@.len() as int) =~= tracks@);
}

/// The FFmpeg arguments that cut segment `seg_start..seg_end`
/// (milliseconds) of `input_path` into `out_file` (see `segment_args`).
pub fn segment_command_args(
    input_path: &str,
    seg_start: i64,
    seg_end: i64,
    overlapping_audio: &[&AudioTrack],
    seg_srt: Option<&str>,
    input_has_audio: bool,
    original_radio: bool,
    original_radio_intensity: u32,
    merge: bool,
    compress: bool,
    quality: u32,
    burn_subtitles: bool,
    vhs_effect: bool,
    vhs_intensity: u32,
    vhs_scanlines: bool,
    vhs_color_profile: &str,
    out_file: &str,
) -> (args: Vec<String>)
    requires
        forall|j: int| 0 <= j < overlapping_audio@.len() ==> track_ok(*overlapping_audio@[j]),
        ms_ok(seg_start),
        ms_ok(seg_end),
    ensures
        views(args@) == segment_args(
            input_path@, seg_start as int, seg_end as int, overlapping_audio@,
            match seg_srt { Some(p) => Some(p@), None => None },
            input_has_audio, original_radio, original_radio_intensity as int, merge, compress,
            quality as int, burn_subtitles, vhs_effect, vhs_intensity as int, vhs_scanlines,
            vhs_color_profile@, out_file@),
{
    let ghost srt_view: Option<Seq<char>> = match seg_srt { Some(p) => Some(p@), None => None };
    let effective_radio = original_radio && input_has_audio;
    let audio_processing = overlapping_audio.len() > 0 || effective_radio;
    let video_processing = seg_srt.is_some() || vhs_effect;
    let duration = seg_end - seg_start;
    let mut args: Vec<String> = Vec::new();
    args.push("-y".to_owned());
    args.push("-ss".to_owned());
    args.push(secs3_string(seg_start));
    args.push("-i".to_owned());
    args.push(input_path.to_owned());
    push_audio_inputs(&mut args, overlapping_audio);
    let ghost head = views(args@);
    assert(head =~= seq!["-y"@, "-ss"@, secs3(seg_start as int), "-i"@, input_path@]
        + audio_input_args(overlapping_audio@));
    let ghost body: Seq<Seq<char>>;
    if audio_processing || video_processing {
        build_export_filter_cmd(
            &mut args, overlapping_audio, effective_radio, original_radio_intensity, seg_start,
            duration, seg_srt, compress, quality, merge, input_has_audio, vhs_effect,
            vhs_intensity, vhs_scanlines, vhs_color_profile);
        proof {
            body = export_filter_args(
                overlapping_audio@, effective_radio, original_radio_intensity as int, duration as int,
                srt_view, compress, quality as int, merge, input_has_audio, vhs_effect,
                vhs_intensity as int, vhs_scanlines, vhs_color_profile@);
        }
    } else if merge || compress {
        push_encode_head(&mut args, duration);
        args.push(dec_string(quality as u64));
        args.push("-c:a".to_owned());
        args.push("aac".to_owned());
        args.push("-b:a".to_owned());
        args.push("192k".to_owned());
        args.push("-avoid_negative_ts".to_owned());
        args.push("make_zero".to_owned());
        args.push("-map".to_owned());
        args.push("0".to_owned());
        let ghost mid = views(args@);
        push_subtitle_vf(&mut args, seg_srt);
        proof {
            body = seq!["-t"@, secs3(duration as int), "-c:v"@, "libx264"@, "-preset"@, "medium"@, "-crf"@]
                + seq![dec(quality as nat), "-c:a"@, "aac"@, "-b:a"@, "192k"@, "-avoid_negative_ts"@,
                "make_zero"@, "-map"@, "0"@] + subtitle_vf_args(srt_view);
            assert(mid =~= head + seq!["-t"@, secs3(duration as int), "-c:v"@, "libx264"@, "-preset"@, "medium"@, "-crf"@]
                + seq![dec(quality as nat), "-c:a"@, "aac"@, "-b:a"@, "192k"@, "-avoid_negative_ts"@,
                "make_zero"@, "-map"@, "0"@]);
        }
    } else if burn_subtitles {
        push_encode_head(&mut args, duration);
        args.push("18".to_owned());
        args.push("-c:a".to_owned());
        args.push("aac".to_owned());
        args.push("-b:a".to_owned());
        args.push("192k".to_owned());
        args.push("-avoid_negative_ts".to_owned());
        args.push("make_zero".to_owned());
        let ghost mid = views(args@);
        push_subtitle_vf(&mut args, seg_srt);
        proof {
            body = seq!["-t"@, secs3(duration as int), "-c:v"@, "libx264"@, "-preset"@, "medium"@, "-crf"@]
                + seq!["18"@, "-c:a"@, "aac"@, "-b:a"@, "192k"@, "-avoid_negative_ts"@, "make_zero"@]
                + subtitle_vf_args(srt_view);
            assert(mid =~= head + seq!["-t"@, secs3(duration as int), "-c:v"@, "libx264"@, "-preset"@, "medium"@, "-crf"@]
                + seq!["18"@, "-c:a"@, "aac"@, "-b:a"@, "192k"@, "-avoid_negative_ts"@, "make_zero"@]);
        }
    } else {
        args.push("-t".to_owned());
        args.push(secs3_string(duration));
        args.push("-c".to_owned());
        args.push("copy".to_owned());
        args.push("-avoid_negative_ts".to_owned());
        args.push("make_zero".to_owned());
        args.push("-map".to_owned());
        args.push("0".to_owned());
        proof {
            body = seq!["-t"@, secs3(duration as int), "-c"@, "copy"@, "-avoid_negative_ts"@, "make_zero"@, "-map"@, "0"@];
        }
    }
    assert(views(args@) =~= head + body);
    args.push(out_file.to_owned());
    assert(views(args@) =~= segment_args(
        input_path@, seg_start as int, seg_end as int, overlapping_audio@, srt_view,
        input_has_audio, original_radio, original_radio_intensity as int, merge, compress,
        quality as int, burn_subtitles, vhs_effect, vhs_intensity as int, vhs_scanlines,
        vhs_color_profile@, out_file@));
    args
}

/// Whenever a radio effect is applied (to the original audio or to a
/// dubbed track), the export is downmixed to one channel: the arguments
/// contain `-ac 1`.
pub proof fn law_radio_exports_are_mono(
    tracks: Seq<&AudioTrack>,
    original_radio: bool,
    original_radio_intensity: int,
    seg_duration: int,
    seg_srt: Option<Seq<char>>,
    compress: bool,
    quality: int,
    merge: bool,
    input_has_audio: bool,
    vhs_effect: bool,
    vhs_intensity: int,
    vhs_scanlines: bool,
    vhs_color_profile: Seq<char>,
)
    requires
        has_radio(tracks, original_radio, input_has_audio),
    ensures
        ({
            let a = export_filter_args(
                tracks, original_radio, original_radio_intensity, seg_duration, seg_srt, compress,
                quality, merge, input_has_audio, vhs_effect, vhs_intensity, vhs_scanlines,
                vhs_color_profile);
            exists|k: int| 0 <= k && k + 1 < a.len() && #[trigger] a[k] == "-ac"@ && a[k + 1] == "1"@
        }),
{
    reveal(export_output_args);
    let a = export_filter_args(
        tracks, original_radio, original_radio_intensity, seg_duration, seg_srt, compress,
        quality, merge, input_has_audio, vhs_effect, vhs_intensity, vhs_scanlines,
        vhs_color_profile);
    let has_vfilter = seg_srt is Some || vhs_effect;
    let k: int = if merge || compress || has_vfilter { 18 } else { 14 };
    assert(a[k] == "-ac"@ && a[k + 1] == "1"@);
}

/// The video output is the filtered `[vout]` exactly when subtitles are
/// burned or the VHS look is applied; otherwise the input video is mapped.
pub proof fn law_video_map_follows_filters(
    tracks: Seq<&AudioTrack>,
    original_radio: bool,
    original_radio_intensity: int,
    seg_duration: int,
    seg_srt: Option<Seq<char>>,
    compress: bool,
    quality: int,
    merge: bool,
    input_has_audio: bool,
    vhs_effect: bool,
    vhs_intensity: int,
    vhs_scanlines: bool,
    vhs_color_profile: Seq<char>,
)
    ensures
        ({
            let a = export_filter_args(
                tracks, original_radio, original_radio_intensity, seg_duration, seg_srt, compress,
                quality, merge, input_has_audio, vhs_effect, vhs_intensity, vhs_scanlines,
                vhs_color_profile);
            &&& a[0] == "-filter_complex"@
            &&& a[2] == "-map"@
            &&& a[3] == (if seg_srt is Some || vhs_effect { "[vout]"@ } else { "0:v"@ })
        }),
{
    reveal(export_output_args);
}


proof fn lemma_audio_input_args_len(tracks: Seq<&AudioTrack>)
    ensures
        audio_input_args(tracks).len() == 6 * tracks.len(),
    decreases tracks.len(),
{
    if tracks.len() > 0 {
        lemma_audio_input_args_len(tracks.drop_last());
    }
}

proof fn lemma_filter_args_encode(
    tracks: Seq<&AudioTrack>,
    original_radio: bool,
    original_radio_intensity: int,
    seg_duration: int,
    seg_srt: Option<Seq<char>>,
    compress: bool,
    quality: int,
    merge: bool,
    input_has_audio: bool,
    vhs_effect: bool,
    vhs_intensity: int,
    vhs_scanlines: bool,
    vhs_color_profile: Seq<char>,
)
    requires
        merge || compress || seg_srt is Some || vhs_effect,
    ensures
        ({
            let f = export_filter_args(
                tracks, original_radio, original_radio_intensity, seg_duration, seg_srt, compress,
                quality, merge, input_has_audio, vhs_effect, vhs_intensity, vhs_scanlines,
                vhs_color_profile);
            &&& f.len() > 13
            &&& f[8] == "-c:v"@
            &&& f[9] == "libx264"@
            &&& f[10] == "-preset"@
            &&& f[11] == "medium"@
            &&& f[12] == "-crf"@
            &&& (compress || (merge && !vhs_effect)) ==> f[13] == dec(quality as nat)
        }),
{
    reveal(export_output_args);
}

/// A cut that needs no processing, merging, compressing or burning is a
/// lossless trim: the streams are copied, never re-encoded.
pub proof fn law_plain_trim_is_lossless(
    input_path: Seq<char>,
    seg_start: int,
    seg_end: int,
    tracks: Seq<&AudioTrack>,
    seg_srt: Option<Seq<char>>,
    input_has_audio: bool,
    original_radio: bool,
    original_radio_intensity: int,
    quality: int,
    vhs_intensity: int,
    vhs_scanlines: bool,
    vhs_color_profile: Seq<char>,
    out_file: Seq<char>,
)
    requires
        tracks.len() == 0,
        !(original_radio && input_has_audio),
        seg_srt is None,
    ensures
        segment_args(input_path, seg_start, seg_end, tracks, seg_srt, input_has_audio, original_radio,
            original_radio_intensity, false, false, quality, false, false, vhs_intensity, vhs_scanlines,
            vhs_color_profile, out_file) == seq!["-y"@, "-ss"@, secs3(seg_start), "-i"@, input_path, "-t"@,
            secs3(seg_end - seg_start), "-c"@, "copy"@, "-avoid_negative_ts"@, "make_zero"@, "-map"@, "0"@,
            out_file],
{
    assert(audio_input_args(tracks) =~= Seq::<Seq<char>>::empty());
    assert(segment_args(input_path, seg_start, seg_end, tracks, seg_srt, input_has_audio, original_radio,
        original_radio_intensity, false, false, quality, false, false, vhs_intensity, vhs_scanlines,
        vhs_color_profile, out_file) =~= seq!["-y"@, "-ss"@, secs3(seg_start), "-i"@, input_path, "-t"@,
        secs3(seg_end - seg_start), "-c"@, "copy"@, "-avoid_negative_ts"@, "make_zero"@, "-map"@, "0"@,
        out_file]);
}

/// A compressed cut is re-encoded with H.264 at the requested quality: the
/// arguments hold `-c:v libx264 -preset medium -crf <quality>`.
pub proof fn law_compressed_cut_uses_quality(
    input_path: Seq<char>,
    seg_start: int,
    seg_end: int,
    tracks: Seq<&AudioTrack>,
    seg_srt: Option<Seq<char>>,
    input_has_audio: bool,
    original_radio: bool,
    original_radio_intensity: int,
    merge: bool,
    quality: int,
    burn_subtitles: bool,
    vhs_effect: bool,
    vhs_intensity: int,
    vhs_scanlines: bool,
    vhs_color_profile: Seq<char>,
    out_file: Seq<char>,
)
    ensures
        ({
            let a = segment_args(input_path, seg_start, seg_end, tracks, seg_srt, input_has_audio,
                original_radio, original_radio_intensity, merge, true, quality, burn_subtitles, vhs_effect,
                vhs_intensity, vhs_scanlines, vhs_color_profile, out_file);
            exists|k: int| 0 <= k && k + 5 < a.len() && #[trigger] a[k] == "-c:v"@ && a[k + 1] == "libx264"@
                && a[k + 2] == "-preset"@ && a[k + 3] == "medium"@ && a[k + 4] == "-crf"@
                && a[k + 5] == dec(quality as nat)
        }),
{
    lemma_audio_input_args_len(tracks);
    let radio = original_radio && input_has_audio;
    let processing = tracks.len() > 0 || radio || seg_srt is Some || vhs_effect;
    let head = seq!["-y"@, "-ss"@, secs3(seg_start), "-i"@, input_path] + audio_input_args(tracks);
    let a = segment_args(input_path, seg_start, seg_end, tracks, seg_srt, input_has_audio,
        original_radio, original_radio_intensity, merge, true, quality, burn_subtitles, vhs_effect,
        vhs_intensity, vhs_scanlines, vhs_color_profile, out_file);
    let body = a.subrange(head.len() as int, a.len() - 1);
    assert(a =~= head + body + seq![out_file]);
    let j: int = if processing { 8 } else { 2 };
    if processing {
        lemma_filter_args_encode(tracks, radio, original_radio_intensity, seg_end - seg_start, seg_srt,
            true, quality, merge, input_has_audio, vhs_effect, vhs_intensity, vhs_scanlines,
            vhs_color_profile);
    }
    assert(body[j] == "-c:v"@ && body[j + 1] == "libx264"@ && body[j + 2] == "-preset"@
        && body[j + 3] == "medium"@ && body[j + 4] == "-crf"@ && body[j + 5] == dec(quality as nat));
    let k = head.len() + j;
    assert(a[k] == body[j]);
    assert(a[k + 5] == body[j + 5]);
}

/// Every cut of a merged export is re-encoded with H.264, so that the
/// concatenated parts share one codec profile.
pub proof fn law_merged_cut_is_reencoded(
    input_path: Seq<char>,
    seg_start: int,
    seg_end: int,
    tracks: Seq<&AudioTrack>,
    seg_srt: Option<Seq<char>>,
    input_has_audio: bool,
    original_radio: bool,
    original_radio_intensity: int,
    compress: bool,
    quality: int,
    burn_subtitles: bool,
    vhs_effect: bool,
    vhs_intensity: int,
    vhs_scanlines: bool,
    vhs_color_profile: Seq<char>,
    out_file: Seq<char>,
)
    ensures
        ({
            let a = segment_args(input_path, seg_start, seg_end, tracks, seg_srt, input_has_audio,
                original_radio, original_radio_intensity, true, compress, quality, burn_subtitles, vhs_effect,
                vhs_intensity, vhs_scanlines, vhs_color_profile, out_file);
            exists|k: int| 0 <= k && k + 1 < a.len() && #[trigger] a[k] == "-c:v"@ && a[k + 1] == "libx264"@
        }),
{
    lemma_audio_input_args_len(tracks);
    let radio = original_radio && input_has_audio;
    let processing = tracks.len() > 0 || radio || seg_srt is Some || vhs_effect;
    let head = seq!["-y"@, "-ss"@, secs3(seg_start), "-i"@, input_path] + audio_input_args(tracks);
    let a = segment_args(input_path, seg_start, seg_end, tracks, seg_srt, input_has_audio,
        original_radio, original_radio_intensity, true, compress, quality, burn_subtitles, vhs_effect,
        vhs_intensity, vhs_scanlines, vhs_color_profile, out_file);
    let body = a.subrange(head.len() as int, a.len() - 1);
    assert(a =~= head + body + seq![out_file]);
    let j: int = if processing { 8 } else { 2 };
    if processing {
        lemma_filter_args_encode(tracks, radio, original_radio_intensity, seg_end - seg_start, seg_srt,
            compress, quality, true, input_has_audio, vhs_effect, vhs_intensity, vhs_scanlines,
            vhs_color_profile);
    }
    assert(body[j] == "-c:v"@ && body[j + 1] == "libx264"@);
    let k = head.len() + j;
    assert(a[k] == body[j]);
    assert(a[k + 1] == body[j + 1]);
}


/// Without audio in the input the radio request for the original audio
/// changes nothing: the arguments are those of the same export without it.
pub proof fn law_original_radio_needs_input_audio(
    tracks: Seq<&AudioTrack>,
    original_radio: bool,
    original_radio_intensity: int,
    seg_duration: int,
    seg_srt: Option<Seq<char>>,
    compress: bool,
    quality: int,
    merge: bool,
    vhs_effect: bool,
    vhs_intensity: int,
    vhs_scanlines: bool,
    vhs_color_profile: Seq<char>,
)
    ensures
        export_filter_args(tracks, original_radio, original_radio_intensity, seg_duration, seg_srt, compress,
            quality, merge, false, vhs_effect, vhs_intensity, vhs_scanlines, vhs_color_profile)
            == export_filter_args(tracks, false, original_radio_intensity, seg_duration, seg_srt, compress,
            quality, merge, false, vhs_effect, vhs_intensity, vhs_scanlines, vhs_color_profile),
{
    reveal(export_filters);
    let profile = if vhs_color_profile == "preserved"@ { VhsColorProfile::Preserved } else { VhsColorProfile::Faded };
    assert(export_filters(tracks, original_radio, original_radio_intensity, seg_duration, seg_srt, false,
        vhs_effect, vhs_intensity, vhs_scanlines, profile)
        == export_filters(tracks, false, original_radio_intensity, seg_duration, seg_srt, false,
        vhs_effect, vhs_intensity, vhs_scanlines, profile));
}


proof fn lemma_volume_text_pair_free(bits: u64)
    ensures
        pair_free(volume_text(bits), '[', '0'),
        volume_text(bits).len() > 0,
{
    reveal_strlit("NaN");
    reveal_strlit("-0.00");
    reveal_strlit("0.00");
    reveal_strlit("2.00");
    reveal_strlit(".");
    let e = f64_exponent(bits);
    let f = f64_fraction(bits);
    if !(e == 2047 && f != 0) && !f64_negative(bits) && e != 2047 {
        let m = if e == 0 { f } else { f + 0x10_0000_0000_0000 };
        let e1 = if e == 0 { 1 } else { e };
        if !(e1 > 1075 || m > 2 * pow2((1075 - e1) as nat)) {
            let q = round_div(m as nat * 100, pow2((1075 - e1) as nat));
            let whole = dec(q / 100);
            let frac = zpad(q % 100, 2);
            lemma_dec_numeric(q / 100);
            lemma_zpad_numeric(q % 100, 2);
            lemma_numeric_pair_free(whole, '[', '0');
            lemma_numeric_pair_free(frac, '[', '0');
            assert(pair_free("."@, '[', '0'));
            lemma_pair_free_concat(whole, "."@, '[', '0');
            lemma_pair_free_concat(whole + "."@, frac, '[', '0');
        }
    }
}

proof fn lemma_dub_name_pair_free(j: int)
    requires
        j >= 0,
    ensures
        pair_free(dub_name(j), '[', '0'),
        dub_name(j).len() > 0,
        dub_name(j)[0] == 'd',
{
    reveal_strlit("dub");
    lemma_dec_numeric(j as nat);
    lemma_numeric_pair_free(dec(j as nat), '[', '0');
    assert(pair_free("dub"@, '[', '0'));
    lemma_pair_free_concat("dub"@, dec(j as nat), '[', '0');
}

proof fn lemma_suffixed_label(j: int, suffix: Seq<char>)
    requires
        j >= 0,
        pair_free(suffix, '[', '0'),
    ensures
        pair_free(dub_name(j) + suffix, '[', '0'),
        (dub_name(j) + suffix)[0] == 'd',
        (dub_name(j) + suffix).len() > 0,
{
    lemma_dub_name_pair_free(j);
    lemma_pair_free_concat(dub_name(j), suffix, '[', '0');
}

proof fn lemma_dub_filters_pair_free(j: int, t: AudioTrack, seg_duration: int)
    requires
        j >= 0,
    ensures
        forall|k: int| 0 <= k < dub_filters(j, t, seg_duration).len() ==> pair_free(#[trigger] dub_filters(j, t, seg_duration)[k], '[', '0'),
{
    reveal_strlit("[");
    reveal_strlit(":a]asetpts=PTS-STARTPTS,volume=");
    reveal_strlit("]");
    reveal_strlit(",");
    lemma_dec_first_nonzero((j + 1) as nat);
    lemma_dec_numeric((j + 1) as nat);
    lemma_numeric_pair_free(dec((j + 1) as nat), '[', '0');
    lemma_volume_text_pair_free(t.volume);
    let a0 = "["@;
    assert(pair_free(a0, '[', '0'));
    lemma_pair_free_concat(a0, dec((j + 1) as nat), '[', '0');
    let a1 = a0 + dec((j + 1) as nat);
    let lit = ":a]asetpts=PTS-STARTPTS,volume="@;
    assert(pair_free(lit, '[', '0'));
    lemma_pair_free_concat(a1, lit, '[', '0');
    let a2 = a1 + lit;
    lemma_pair_free_concat(a2, volume_text(t.volume), '[', '0');
    let base = a2 + volume_text(t.volume);
    assert(base == dub_base(j, t));
    lemma_dub_name_pair_free(j);
    if t.radio_effect {
        lemma_pair_free_concat(base, ","@, '[', '0');
        reveal_strlit("_eq");
        reveal_strlit("_n");
        reveal_strlit("_c");
        assert(pair_free("_eq"@, '[', '0'));
        assert(pair_free("_n"@, '[', '0'));
        assert(pair_free("_c"@, '[', '0'));
        lemma_suffixed_label(j, "_eq"@);
        lemma_suffixed_label(j, "_n"@);
        lemma_suffixed_label(j, "_c"@);
        lemma_radio_filters_pair_free(
            base + ","@,
            min_int(t.audio_source_end - t.audio_source_start, seg_duration),
            t.radio_intensity as int,
            dub_name(j) + "_eq"@,
            dub_name(j) + "_n"@,
            dub_name(j) + "_c"@,
            dub_name(j),
        );
    } else {
        lemma_pair_free_concat(base, "["@, '[', '0');
        lemma_pair_free_concat(base + "["@, dub_name(j), '[', '0');
        lemma_pair_free_concat(base + "["@ + dub_name(j), "]"@, '[', '0');
        assert(dub_filters(j, t, seg_duration)[0] == base + "["@ + dub_name(j) + "]"@);
    }
}

proof fn lemma_all_dub_filters_pair_free(tracks: Seq<&AudioTrack>, seg_duration: int)
    ensures
        forall|k: int| 0 <= k < all_dub_filters(tracks, seg_duration).len()
            ==> pair_free(#[trigger] all_dub_filters(tracks, seg_duration)[k], '[', '0'),
    decreases tracks.len(),
{
    if tracks.len() > 0 {
        lemma_all_dub_filters_pair_free(tracks.drop_last(), seg_duration);
        lemma_dub_filters_pair_free(tracks.len() - 1, *tracks.last(), seg_duration);
        let a = all_dub_filters(tracks.drop_last(), seg_duration);
        let b = dub_filters(tracks.len() - 1, *tracks.last(), seg_duration);
        assert forall|k: int| 0 <= k < (a + b).len() implies pair_free(#[trigger] (a + b)[k], '[', '0') by {
            if k < a.len() {
                assert((a + b)[k] == a[k]);
            } else {
                assert((a + b)[k] == b[k - a.len()]);
            }
        }
    }
}

proof fn lemma_dub_labels_pair_free(n: nat)
    ensures
        pair_free(join(Seq::new(n, |j: int| "["@ + dub_name(j) + "]"@), ""@), '[', '0'),
    decreases n,
{
    reveal_strlit("[");
    reveal_strlit("]");
    reveal_strlit("");
    let parts = Seq::new(n, |j: int| "["@ + dub_name(j) + "]"@);
    if n > 0 {
        let j = n - 1;
        lemma_dub_name_pair_free(j);
        assert(pair_free("["@, '[', '0'));
        lemma_pair_free_concat("["@, dub_name(j), '[', '0');
        lemma_pair_free_concat("["@ + dub_name(j), "]"@, '[', '0');
        let last = "["@ + dub_name(j) + "]"@;
        assert(parts.last() == last);
        if n == 1 {
            assert(join(parts, ""@) == parts[0]);
        } else {
            lemma_dub_labels_pair_free((n - 1) as nat);
            assert(parts.drop_last() =~= Seq::new((n - 1) as nat, |j: int| "["@ + dub_name(j) + "]"@));
            let a = join(parts.drop_last(), ""@);
            assert(a + ""@ =~= a);
            lemma_pair_free_concat(a, last, '[', '0');
        }
    }
}

/// Without audio in the input no filter reads its audio stream: "[0:a]"
/// does not occur in the filter graph.
pub proof fn law_no_input_audio_is_never_read(
    tracks: Seq<&AudioTrack>,
    original_radio: bool,
    original_radio_intensity: int,
    seg_duration: int,
    seg_srt: Option<Seq<char>>,
    compress: bool,
    quality: int,
    merge: bool,
    vhs_effect: bool,
    vhs_intensity: int,
    vhs_scanlines: bool,
    vhs_color_profile: Seq<char>,
)
    ensures
        !contains(
            export_filter_args(tracks, original_radio, original_radio_intensity, seg_duration, seg_srt, compress,
                quality, merge, false, vhs_effect, vhs_intensity, vhs_scanlines, vhs_color_profile)[1],
            "[0:a]"@,
        ),
{
    reveal(export_filters);
    reveal_strlit("[0:a]");
    reveal_strlit(";");
    let pat = "[0:a]"@;
    let profile = if vhs_color_profile == "preserved"@ { VhsColorProfile::Preserved } else { VhsColorProfile::Faded };
    let n = tracks.len();
    let audio = original_filters(original_radio, original_radio_intensity, seg_duration, false)
        + all_dub_filters(tracks, seg_duration);
    assert(audio =~= all_dub_filters(tracks, seg_duration));
    let labels = audio_labels(original_radio, false, n);
    assert(labels =~= Seq::new(n, |j: int| "["@ + dub_name(j) + "]"@));
    let radio = has_radio(tracks, original_radio, false);
    let mixed = mixed_filters(audio, labels, radio);
    let video = video_filters(seg_srt, vhs_effect, vhs_intensity, vhs_scanlines, profile);
    let fs = export_filters(tracks, original_radio, original_radio_intensity, seg_duration, seg_srt, false,
        vhs_effect, vhs_intensity, vhs_scanlines, profile);
    assert(fs == mixed + video);
    lemma_all_dub_filters_pair_free(tracks, seg_duration);
    lemma_mixed_pair_free(audio, labels, radio);
    lemma_video_filters_pair_free_ab(seg_srt, vhs_effect, vhs_intensity, vhs_scanlines, profile);
    assert forall|k: int| 0 <= k < fs.len() implies !contains(#[trigger] fs[k], pat) by {
        if k < mixed.len() {
            assert(fs[k] == mixed[k]);
            lemma_pair_free_avoids(fs[k], pat, 0);
        } else {
            assert(fs[k] == video[k - mixed.len()]);
            lemma_pair_free_avoids(fs[k], pat, 3);
        }
    }
    assert(";"@ =~= seq![';']);
    lemma_join_avoids(fs, ';', pat);
}

proof fn lemma_mixed_pair_free(filters: Seq<Seq<char>>, labels: Seq<Seq<char>>, radio: bool)
    requires
        forall|k: int| 0 <= k < filters.len() ==> pair_free(#[trigger] filters[k], '[', '0'),
        labels =~= Seq::new(labels.len(), |j: int| "["@ + dub_name(j) + "]"@),
    ensures
        forall|k: int| 0 <= k < mixed_filters(filters, labels, radio).len()
            ==> pair_free(#[trigger] mixed_filters(filters, labels, radio)[k], '[', '0'),
{
    let n = labels.len();
    let m = mixed_filters(filters, labels, radio);
    if n > 1 {
        let mix_in = join(labels, ""@);
        lemma_dub_labels_pair_free(n);
        lemma_dec_numeric(n);
        lemma_numeric_pair_free(dec(n), '[', '0');
        reveal_strlit("amix=inputs=");
        reveal_strlit(":duration=first:dropout_transition=0:normalize=0[aout_mix]");
        reveal_strlit("[aout_mix]aformat=channel_layouts=mono[aout]");
        reveal_strlit(":duration=first:dropout_transition=0[aout]");
        assert(pair_free("amix=inputs="@, '[', '0'));
        lemma_pair_free_concat(mix_in, "amix=inputs="@, '[', '0');
        lemma_pair_free_concat(mix_in + "amix=inputs="@, dec(n), '[', '0');
        if radio {
            let tail = ":duration=first:dropout_transition=0:normalize=0[aout_mix]"@;
            assert(pair_free(tail, '[', '0'));
            lemma_pair_free_concat(mix_in + "amix=inputs="@ + dec(n), tail, '[', '0');
            assert(pair_free("[aout_mix]aformat=channel_layouts=mono[aout]"@, '[', '0'));
            let extra = seq![mix_in + "amix=inputs="@ + dec(n) + tail, "[aout_mix]aformat=channel_layouts=mono[aout]"@];
            assert(m == filters + extra);
            assert forall|k: int| 0 <= k < m.len() implies pair_free(#[trigger] m[k], '[', '0') by {
                if k < filters.len() {
                    assert(m[k] == filters[k]);
                } else {
                    assert(m[k] == extra[k - filters.len()]);
                }
            }
        } else {
            let tail = ":duration=first:dropout_transition=0[aout]"@;
            assert(pair_free(tail, '[', '0'));
            lemma_pair_free_concat(mix_in + "amix=inputs="@ + dec(n), tail, '[', '0');
            let extra = seq![mix_in + "amix=inputs="@ + dec(n) + tail];
            assert(m == filters + extra);
            assert forall|k: int| 0 <= k < m.len() implies pair_free(#[trigger] m[k], '[', '0') by {
                if k < filters.len() {
                    assert(m[k] == filters[k]);
                } else {
                    assert(m[k] == extra[k - filters.len()]);
                }
            }
        }
    } else if n == 1 && labels[0] != "[0:a]"@ && filters.len() > 0 {
        reveal_strlit("[aout]");
        let rep = "[aout]"@;
        assert(pair_free(rep, '[', '0'));
        let last = filters.last();
        let pat = "["@ + trim_brackets(labels[0]) + "]"@;
        lemma_replace_all_pair_free(last, pat, rep, '[', '0');
        assert forall|k: int| 0 <= k < m.len() implies pair_free(#[trigger] m[k], '[', '0') by {
            if k < filters.len() - 1 {
                assert(m[k] == filters[k]);
            }
        }
    }
}

proof fn lemma_video_filters_pair_free_ab(
    srt: Option<Seq<char>>,
    vhs_effect: bool,
    vhs_intensity: int,
    vhs_scanlines: bool,
    profile: VhsColorProfile,
)
    ensures
        forall|k: int| 0 <= k < video_filters(srt, vhs_effect, vhs_intensity, vhs_scanlines, profile).len()
            ==> pair_free(#[trigger] video_filters(srt, vhs_effect, vhs_intensity, vhs_scanlines, profile)[k], 'a', ']'),
{
    reveal_strlit("[0:v]subtitles='");
    reveal_strlit("'");
    reveal_strlit("[vsub]");
    reveal_strlit("[vout]");
    reveal_strlit("[0:v]");
    assert(pair_free("[vsub]"@, 'a', ']'));
    assert(pair_free("[vout]"@, 'a', ']'));
    assert(pair_free("[0:v]"@, 'a', ']'));
    match srt {
        Some(path) => {
            lemma_filter_path_pair_free_ab(path);
            let head = "[0:v]subtitles='"@;
            assert(pair_free(head, 'a', ']'));
            assert(pair_free("'"@, 'a', ']'));
            lemma_pair_free_concat(head, filter_path(path), 'a', ']');
            lemma_pair_free_concat(head + filter_path(path), "'"@, 'a', ']');
            let sub = head + filter_path(path) + "'"@;
            if vhs_effect {
                lemma_pair_free_concat(sub, "[vsub]"@, 'a', ']');
                lemma_vhs_chain_pair_free_ab("[vsub]"@, "[vout]"@, vhs_intensity, vhs_scanlines, profile);
            } else {
                lemma_pair_free_concat(sub, "[vout]"@, 'a', ']');
            }
        },
        None => {
            if vhs_effect {
                lemma_vhs_chain_pair_free_ab("[0:v]"@, "[vout]"@, vhs_intensity, vhs_scanlines, profile);
            }
        },
    }
}


/// A merged cut without the VHS look is re-encoded with H.264 at the
/// requested quality, so that all parts of the merge share it: the
/// arguments hold `-c:v libx264 -preset medium -crf <quality>`.
pub proof fn law_merged_cut_uses_quality(
    input_path: Seq<char>,
    seg_start: int,
    seg_end: int,
    tracks: Seq<&AudioTrack>,
    seg_srt: Option<Seq<char>>,
    input_has_audio: bool,
    original_radio: bool,
    original_radio_intensity: int,
    compress: bool,
    quality: int,
    burn_subtitles: bool,
    vhs_intensity: int,
    vhs_scanlines: bool,
    vhs_color_profile: Seq<char>,
    out_file: Seq<char>,
)
    ensures
        ({
            let a = segment_args(input_path, seg_start, seg_end, tracks, seg_srt, input_has_audio,
                original_radio, original_radio_intensity, true, compress, quality, burn_subtitles, false,
                vhs_intensity, vhs_scanlines, vhs_color_profile, out_file);
            exists|k: int| 0 <= k && k + 5 < a.len() && #[trigger] a[k] == "-c:v"@ && a[k + 1] == "libx264"@
                && a[k + 2] == "-preset"@ && a[k + 3] == "medium"@ && a[k + 4] == "-crf"@
                && a[k + 5] == dec(quality as nat)
        }),
{
    lemma_audio_input_args_len(tracks);
    let radio = original_radio && input_has_audio;
    let processing = tracks.len() > 0 || radio || seg_srt is Some;
    let head = seq!["-y"@, "-ss"@, secs3(seg_start), "-i"@, input_path] + audio_input_args(tracks);
    let a = segment_args(input_path, seg_start, seg_end, tracks, seg_srt, input_has_audio,
        original_radio, original_radio_intensity, true, compress, quality, burn_subtitles, false,
        vhs_intensity, vhs_scanlines, vhs_color_profile, out_file);
    let body = a.subrange(head.len() as int, a.len() - 1);
    assert(a =~= head + body + seq![out_file]);
    let j: int = if processing { 8 } else { 2 };
    if processing {
        lemma_filter_args_encode(tracks, radio, original_radio_intensity, seg_end - seg_start, seg_srt,
            compress, quality, true, input_has_audio, false, vhs_intensity, vhs_scanlines,
            vhs_color_profile);
    }
    assert(body[j] == "-c:v"@ && body[j + 1] == "libx264"@ && body[j + 2] == "-preset"@
        && body[j + 3] == "medium"@ && body[j + 4] == "-crf"@ && body[j + 5] == dec(quality as nat));
    let k = head.len() + j;
    assert(a[k] == body[j]);
    assert(a[k + 5] == body[j + 5]);
}

/// The filter-graph arguments of a merged or compressed export without the
/// VHS look encode with H.264 at the requested quality; with the VHS look a
/// compressed export does too.
pub proof fn law_filter_graph_crf_is_quality(
    tracks: Seq<&AudioTrack>,
    original_radio: bool,
    original_radio_intensity: int,
    seg_duration: int,
    seg_srt: Option<Seq<char>>,
    compress: bool,
    quality: int,
    merge: bool,
    input_has_audio: bool,
    vhs_effect: bool,
    vhs_intensity: int,
    vhs_scanlines: bool,
    vhs_color_profile: Seq<char>,
)
    requires
        compress || (merge && !vhs_effect),
    ensures
        ({
            let f = export_filter_args(
                tracks, original_radio, original_radio_intensity, seg_duration, seg_srt, compress,
                quality, merge, input_has_audio, vhs_effect, vhs_intensity, vhs_scanlines,
                vhs_color_profile);
            &&& f[8] == "-c:v"@ && f[9] == "libx264"@ && f[10] == "-preset"@ && f[11] == "medium"@
            &&& f[12] == "-crf"@ && f[13] == dec(quality as nat)
        }),
{
    lemma_filter_args_encode(tracks, original_radio, original_radio_intensity, seg_duration, seg_srt,
        compress, quality, merge, input_has_audio, vhs_effect, vhs_intensity, vhs_scanlines,
        vhs_color_profile);
}


/// With the VHS look requested a cut always goes through the filter graph
/// and is re-encoded, never stream-copied: right after the inputs come
/// `-filter_complex` with a graph that ends with the VHS chain from the
/// input video (or the subtitled video) to `[vout]`, so ending in
/// `format=yuv420p[vout]`, then `-map [vout]`, and the video codec is H.264.
pub proof fn law_vhs_cut_goes_through_filter_graph(
    input_path: Seq<char>,
    seg_start: int,
    seg_end: int,
    tracks: Seq<&AudioTrack>,
    seg_srt: Option<Seq<char>>,
    input_has_audio: bool,
    original_radio: bool,
    original_radio_intensity: int,
    merge: bool,
    compress: bool,
    quality: int,
    burn_subtitles: bool,
    vhs_intensity: int,
    vhs_scanlines: bool,
    vhs_color_profile: Seq<char>,
    out_file: Seq<char>,
)
    ensures
        ({
            let a = segment_args(input_path, seg_start, seg_end, tracks, seg_srt, input_has_audio,
                original_radio, original_radio_intensity, merge, compress, quality, burn_subtitles, true,
                vhs_intensity, vhs_scanlines, vhs_color_profile, out_file);
            let h: int = 5 + 6 * tracks.len() as int;
            let profile = if vhs_color_profile == "preserved"@ { VhsColorProfile::Preserved } else { VhsColorProfile::Faded };
            let c = vhs_chain(if seg_srt is Some { "[vsub]"@ } else { "[0:v]"@ }, "[vout]"@, vhs_intensity,
                vhs_scanlines, profile);
            let g = a[h + 1];
            &&& a.len() > h + 9
            &&& a[h] == "-filter_complex"@
            &&& g.len() >= c.len() && g.skip(g.len() - c.len()) == c
            &&& g.len() >= 20 && g.skip(g.len() - 20) == "format=yuv420p[vout]"@
            &&& a[h + 2] == "-map"@ && a[h + 3] == "[vout]"@
            &&& a[h + 8] == "-c:v"@ && a[h + 9] == "libx264"@
        }),
{
    reveal(export_output_args);
    reveal(export_filters);
    lemma_audio_input_args_len(tracks);
    let radio = original_radio && input_has_audio;
    let head = seq!["-y"@, "-ss"@, secs3(seg_start), "-i"@, input_path] + audio_input_args(tracks);
    let a = segment_args(input_path, seg_start, seg_end, tracks, seg_srt, input_has_audio,
        original_radio, original_radio_intensity, merge, compress, quality, burn_subtitles, true,
        vhs_intensity, vhs_scanlines, vhs_color_profile, out_file);
    let body = export_filter_args(tracks, radio, original_radio_intensity, seg_end - seg_start, seg_srt,
        compress, quality, merge, input_has_audio, true, vhs_intensity, vhs_scanlines, vhs_color_profile);
    assert(a == head + body + seq![out_file]);
    let profile = if vhs_color_profile == "preserved"@ { VhsColorProfile::Preserved } else { VhsColorProfile::Faded };
    let lbl = if seg_srt is Some { "[vsub]"@ } else { "[0:v]"@ };
    let c = vhs_chain(lbl, "[vout]"@, vhs_intensity, vhs_scanlines, profile);
    let fs = export_filters(tracks, radio, original_radio_intensity, seg_end - seg_start, seg_srt,
        input_has_audio, true, vhs_intensity, vhs_scanlines, profile);
    let audio = original_filters(radio, original_radio_intensity, seg_end - seg_start, input_has_audio)
        + all_dub_filters(tracks, seg_end - seg_start);
    let labels = audio_labels(radio, input_has_audio, tracks.len());
    let mixed = mixed_filters(audio, labels, has_radio(tracks, radio, input_has_audio));
    let video = video_filters(seg_srt, true, vhs_intensity, vhs_scanlines, profile);
    assert(fs == mixed + video);
    assert(video.last() == c);
    assert(fs.last() == c);
    lemma_join_ends_with_last(fs, ";"@);
    let g = join(fs, ";"@);
    assert(body[1] == g);
    let h = head.len() as int;
    assert(a[h] == body[0]);
    assert(a[h + 1] == body[1]);
    assert(a[h + 2] == body[2] && a[h + 3] == body[3]);
    assert(a[h + 8] == body[8] && a[h + 9] == body[9]);
    law_vhs_labels_only_at_ends(lbl, "[vout]"@, vhs_intensity, vhs_scanlines, profile);
    reveal_strlit("format=yuv420p[vout]");
    reveal_strlit("format=yuv420p");
    reveal_strlit("[vout]");
    let m = vhs_chain(Seq::empty(), Seq::empty(), crate::vhs::clamp100(vhs_intensity), vhs_scanlines, profile);
    assert(c == lbl + m + "[vout]"@);
    assert(c.len() >= 20);
    assert(c.skip(c.len() - 20) =~= m.skip(m.len() - 14) + "[vout]"@);
    assert(g.skip(g.len() - 20) =~= c.skip(c.len() - 20));
}

} // verus!
