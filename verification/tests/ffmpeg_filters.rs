use videdit::export::{build_export_filter_cmd, AudioTrack};
use videdit::radio::{push_radio_effect_filters, radio_params};
use videdit::vhs::{build_vhs_filter_chain, parse_vhs_color_profile, vhs_params, VhsColorProfile};

/// A fixed-point value (eight decimal places) as a float.
fn decimal(v: i64) -> f64 {
    v as f64 / 100_000_000.0
}

#[test]
fn vhs_params_clamp_intensity_to_100() {
    assert_eq!(vhs_params(100), vhs_params(250));
}

#[test]
fn vhs_params_increase_damage_with_intensity() {
    let light = vhs_params(0);
    let damaged = vhs_params(100);

    assert!(damaged.blur_radius > light.blur_radius);
    assert!(damaged.chroma_shift > light.chroma_shift);
    assert!(damaged.rgb_shift > light.rgb_shift);
    assert!(damaged.ghost_opacity > light.ghost_opacity);
    assert!(damaged.noise_strength > light.noise_strength);
    assert!(damaged.scanline_alpha > light.scanline_alpha);
    assert!(damaged.tracking_height > light.tracking_height);
    assert!(damaged.saturation < light.saturation);
}

#[test]
fn radio_params_make_sw_noisier_and_cracklier_than_am() {
    let am = radio_params(0);
    let sw = radio_params(100);

    assert_eq!(decimal(am.low_cut), 200.0);
    assert_eq!(decimal(am.high_cut), 4500.0);
    assert_eq!(decimal(am.tilt_db), -3.0);
    assert_eq!(decimal(am.drive), 2.2);
    assert_eq!(decimal(am.fade_depth), 0.108);
    assert_eq!(decimal(am.noise_amp), 0.015);
    assert_eq!(decimal(am.crackle_amp), 0.600);
    assert_eq!(decimal(am.crackle_chance), 0.000041);

    assert_eq!(decimal(sw.low_cut), 350.0);
    assert_eq!(decimal(sw.high_cut), 2800.0);
    assert_eq!(decimal(sw.tilt_db), -5.0);
    assert_eq!(decimal(sw.drive), 3.0);
    assert_eq!(decimal(sw.fade_depth), 0.315);
    assert_eq!(decimal(sw.noise_amp), 0.035);
    assert_eq!(decimal(sw.crackle_amp), 0.820);
    assert_eq!(decimal(sw.crackle_chance), 0.000159);
}

#[test]
fn radio_filter_chain_uses_make_radio_sound_am_style() {
    let mut filters = Vec::new();
    push_radio_effect_filters(&mut filters, "[0:a]", 2000, 0, "eq", "noise", "crackle", "out");
    let chain = filters.join(";");

    assert!(chain.contains("aformat=channel_layouts=mono,aresample=22050"));
    assert!(chain.contains("highshelf=f=1500:g=-3.0"));
    assert!(chain.contains("highpass=f=200,lowpass=f=4500"));
    assert!(chain.contains("volume=2.20,asoftclip=type=tanh:threshold=0.95:output=0.90"));
    assert!(chain.contains("anoisesrc=d=2.000:c=white:r=22050:a=0.0150"));
    assert!(chain.contains("aevalsrc='if(lt(random(0),0.000041),0.6000*(2*random(1)-1),0)'"));
    assert!(chain.contains("[eq][noise][crackle]amix=inputs=3:duration=first:normalize=0[out_mix]"));
    assert!(chain.contains("[out_mix]acompressor=threshold=0.5:ratio=3.0:attack=5:release=80:makeup=1.26"));
    assert!(chain.contains("alimiter=limit=0.95,aformat=channel_layouts=mono[out]"));
}

#[test]
fn radio_filter_chain_uses_make_radio_sound_sw_style() {
    let mut filters = Vec::new();
    push_radio_effect_filters(&mut filters, "[0:a]", 2000, 100, "eq", "noise", "crackle", "out");
    let chain = filters.join(";");

    assert!(chain.contains("aformat=channel_layouts=mono,aresample=22050"));
    assert!(chain.contains("highshelf=f=1500:g=-5.0"));
    assert!(chain.contains("highpass=f=350,lowpass=f=2800"));
    assert!(chain.contains("volume=3.00,asoftclip=type=tanh:threshold=0.95:output=0.90"));
    assert!(chain.contains("volume='1-0.315*(0.5-0.5*(0.7*sin(2*PI*0.17*t)+0.3*sin(2*PI*0.73*t)))':eval=frame[eq]"));
    assert!(chain.contains("anoisesrc=d=2.000:c=white:r=22050:a=0.0350"));
    assert!(chain.contains("aevalsrc='if(lt(random(0),0.000159),0.8200*(2*random(1)-1),0)'"));
    assert!(chain.contains("[eq][noise][crackle]amix=inputs=3:duration=first:normalize=0[out_mix]"));
    assert!(chain.contains("[out_mix]acompressor=threshold=0.5:ratio=3.0:attack=5:release=80:makeup=1.26"));
    assert!(chain.contains("alimiter=limit=0.95,aformat=channel_layouts=mono[out]"));
}

#[test]
fn final_audio_mix_for_radio_exports_is_forced_to_mono() {
    let audio = AudioTrack {
        id: "dub-1".into(),
        segment_id: "seg-1".into(),
        segment_start: 0,
        segment_end: 2000,
        file_path: "dub.wav".into(),
        audio_source_start: 0,
        audio_source_end: 2000,
        volume: 1.0f64.to_bits(),
        radio_effect: true,
        radio_intensity: 100,
    };
    let overlapping_audio = vec![&audio];
    let mut args: Vec<String> = Vec::new();

    build_export_filter_cmd(
        &mut args,
        &overlapping_audio,
        false,
        0,
        0,
        2000,
        None,
        false,
        23,
        false,
        true,
        false,
        40,
        true,
        "faded",
    );

    let filter_complex = args
        .windows(2)
        .find_map(|pair| (pair[0] == "-filter_complex").then(|| pair[1].clone()))
        .expect("filter_complex arg should be present");

    assert!(filter_complex.contains("[dub0_mix]acompressor=threshold=0.5:ratio=3.0:attack=5:release=80:makeup=1.26"));
    assert!(filter_complex.contains("alimiter=limit=0.95,aformat=channel_layouts=mono[dub0]"));
    assert!(filter_complex.contains("[0:a][dub0]amix=inputs=2:duration=first:dropout_transition=0:normalize=0[aout_mix]"));
    assert!(filter_complex.contains("[aout_mix]aformat=channel_layouts=mono[aout]"));
    assert!(args.windows(2).any(|pair| pair[0] == "-ac" && pair[1] == "1"));
}

#[test]
fn vhs_filter_chain_contains_crt_export_steps() {
    let chain = build_vhs_filter_chain("[0:v]", "[vout]", 40, true, VhsColorProfile::Faded);

    assert!(chain.starts_with("[0:v]scale=trunc(ih*4/3/2)*2:trunc(ih/2)*2,setsar=1"));
    assert!(chain.contains("boxblur="));
    assert!(chain.contains("chromashift="));
    assert!(chain.contains("rgbashift="));
    assert!(chain.contains("tblend=all_mode=average"));
    assert!(chain.contains("noise=alls="));
    assert!(chain.contains("eq=contrast="));
    assert!(chain.contains("drawgrid=w=iw:h=2:t=1"));
    assert!(chain.contains("drawbox=x=0:y='trunc(mod(t*61,ih))'"));
    assert!(chain.contains("perspective=x0="));
    assert!(chain.ends_with("format=yuv420p[vout]"));
}

#[test]
fn vhs_filter_chain_can_omit_scanlines_but_keep_distortion() {
    let chain = build_vhs_filter_chain("[0:v]", "[vout]", 40, false, VhsColorProfile::Faded);

    assert!(chain.starts_with("[0:v]scale=trunc(ih*4/3/2)*2:trunc(ih/2)*2,setsar=1"));
    assert!(!chain.contains("drawgrid="));
    assert!(chain.contains("drawbox=x=0:y='trunc(mod(t*61,ih))'"));
    assert!(chain.contains("drawbox=x=0:y='trunc(mod(t*83+ih/3,ih))'"));
    assert!(chain.contains("perspective=x0="));
    assert!(chain.contains("lagfun=decay="));
    assert!(chain.contains("chromashift="));
    assert!(chain.contains("rgbashift="));
    assert!(chain.contains("boxblur="));
    assert!(chain.contains("noise=alls="));
    assert!(chain.ends_with("format=yuv420p[vout]"));
}

#[test]
fn vhs_tracking_distortion_is_more_frequent_and_skews_frame() {
    let chain = build_vhs_filter_chain("[0:v]", "[vout]", 40, true, VhsColorProfile::Faded);

    assert!(!chain.contains("mod(t,5.7)"));
    assert!(chain.contains("enable='lt(mod(t,3.1),0.16)'"));
    assert!(chain.contains("enable='lt(mod(t+1.7,4.4),0.12)'"));
    assert!(chain.contains("perspective=x0=8:y0=0:x1=W+8:y1=0:x2=-4:y2=H:x3=W-4:y3=H"));
    assert!(chain.contains("perspective=x0=-8:y0=0:x1=W-8:y1=0:x2=4:y2=H:x3=W+4:y3=H"));
}

#[test]
fn vhs_color_profile_defaults_to_faded() {
    assert_eq!(parse_vhs_color_profile("faded"), VhsColorProfile::Faded);
    assert_eq!(parse_vhs_color_profile("preserved"), VhsColorProfile::Preserved);
    assert_eq!(parse_vhs_color_profile("unknown"), VhsColorProfile::Faded);
}

#[test]
fn vhs_preserved_color_profile_is_less_washed_than_faded() {
    let faded = build_vhs_filter_chain("[0:v]", "[vout]", 40, false, VhsColorProfile::Faded);
    let preserved = build_vhs_filter_chain("[0:v]", "[vout]", 40, false, VhsColorProfile::Preserved);

    assert!(faded.contains("eq=contrast=0.90:brightness=0.022:saturation=0.65:gamma=1.17"));
    assert!(faded.contains("hue=h=-8:s=0.76"));
    assert!(faded.contains("eq=contrast=0.85:brightness=0.013:saturation=0.63:gamma=1.13"));

    assert!(preserved.contains("eq=contrast=0.97:brightness=0.015:saturation=0.78:gamma=1.07"));
    assert!(preserved.contains("hue=h=-8:s=0.92"));
    assert!(preserved.contains("eq=contrast=0.94:brightness=0.008:saturation=0.82:gamma=1.05"));

    assert!(!preserved.contains("drawgrid="));
    assert!(preserved.contains("drawbox=x=0:y='trunc(mod(t*61,ih))'"));
    assert!(preserved.contains("perspective=x0="));
    assert!(preserved.contains("lagfun=decay="));
    assert!(preserved.contains("chromashift="));
    assert!(preserved.contains("rgbashift="));
}
