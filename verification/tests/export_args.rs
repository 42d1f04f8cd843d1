use videdit::export::{build_export_filter_cmd, AudioTrack};

#[test]
fn export_args_mix_plain_dub_with_original_audio() {
    let t0 = AudioTrack {
        id: "t0".into(),
        segment_id: "s".into(),
        segment_start: 0,
        segment_end: 0,
        file_path: "a0.wav".into(),
        audio_source_start: 1000,
        audio_source_end: 3500,
        volume: 0.8f64.to_bits(),
        radio_effect: false,
        radio_intensity: 0,
    };
    let tracks: Vec<&AudioTrack> = vec![&t0];
    let mut args: Vec<String> = Vec::new();
    build_export_filter_cmd(&mut args, &tracks, false, 0, 0, 2000, None, false, 23, false, true, false, 40, true, "faded");
    let expected: Vec<&str> = vec![
        "-filter_complex",
        "[1:a]asetpts=PTS-STARTPTS,volume=0.80[dub0];[0:a][dub0]amix=inputs=2:duration=first:dropout_transition=0[aout]",
        "-map",
        "0:v",
        "-map",
        "[aout]",
        "-t",
        "2.000",
        "-c:v",
        "copy",
        "-c:a",
        "aac",
        "-b:a",
        "192k",
        "-avoid_negative_ts",
        "make_zero",
    ];
    assert_eq!(args, expected);
}

#[test]
fn export_args_single_radio_dub_renamed_to_aout() {
    let t0 = AudioTrack {
        id: "t0".into(),
        segment_id: "s".into(),
        segment_start: 0,
        segment_end: 0,
        file_path: "a0.wav".into(),
        audio_source_start: 0,
        audio_source_end: 1250,
        volume: 2.5f64.to_bits(),
        radio_effect: true,
        radio_intensity: 30,
    };
    let tracks: Vec<&AudioTrack> = vec![&t0];
    let mut args: Vec<String> = Vec::new();
    build_export_filter_cmd(&mut args, &tracks, true, 70, 0, 2000, None, true, 20, false, false, false, 40, true, "faded");
    let expected: Vec<&str> = vec![
        "-filter_complex",
        "[1:a]asetpts=PTS-STARTPTS,volume=2.00,aformat=channel_layouts=mono,aresample=22050,highshelf=f=1500:g=-3.6,highpass=f=245,lowpass=f=3990,volume=2.44,asoftclip=type=tanh:threshold=0.95:output=0.90,volume='1-0.170*(0.5-0.5*(0.7*sin(2*PI*0.17*t)+0.3*sin(2*PI*0.73*t)))':eval=frame[dub0_eq];anoisesrc=d=1.250:c=white:r=22050:a=0.0210,highpass=f=245,lowpass=f=3990[dub0_n];aevalsrc='if(lt(random(0),0.000076),0.6660*(2*random(1)-1),0)':s=22050:d=1.250,highpass=f=245,lowpass=f=3990[dub0_c];[dub0_eq][dub0_n][dub0_c]amix=inputs=3:duration=first:normalize=0[dub0_mix];[dub0_mix]acompressor=threshold=0.5:ratio=3.0:attack=5:release=80:makeup=1.26,alimiter=limit=0.95,aformat=channel_layouts=mono[aout]",
        "-map",
        "0:v",
        "-map",
        "[aout]",
        "-t",
        "2.000",
        "-c:v",
        "libx264",
        "-preset",
        "medium",
        "-crf",
        "20",
        "-c:a",
        "aac",
        "-b:a",
        "192k",
        "-ac",
        "1",
        "-avoid_negative_ts",
        "make_zero",
    ];
    assert_eq!(args, expected);
}

#[test]
fn export_args_original_radio_with_subtitles_and_vhs() {
    let tracks: Vec<&AudioTrack> = vec![];
    let mut args: Vec<String> = Vec::new();
    build_export_filter_cmd(&mut args, &tracks, true, 0, 0, 1500, Some("C:\\clips\\it's [1].srt"), false, 23, true, true, true, 40, false, "preserved");
    let expected: Vec<&str> = vec![
        "-filter_complex",
        "[0:a]aformat=channel_layouts=mono,aresample=22050,highshelf=f=1500:g=-3.0,highpass=f=200,lowpass=f=4500,volume=2.20,asoftclip=type=tanh:threshold=0.95:output=0.90,volume='1-0.108*(0.5-0.5*(0.7*sin(2*PI*0.17*t)+0.3*sin(2*PI*0.73*t)))':eval=frame[orig_eq];anoisesrc=d=1.500:c=white:r=22050:a=0.0150,highpass=f=200,lowpass=f=4500[orig_noise];aevalsrc='if(lt(random(0),0.000041),0.6000*(2*random(1)-1),0)':s=22050:d=1.500,highpass=f=200,lowpass=f=4500[orig_crackle];[orig_eq][orig_noise][orig_crackle]amix=inputs=3:duration=first:normalize=0[orig_out_mix];[orig_out_mix]acompressor=threshold=0.5:ratio=3.0:attack=5:release=80:makeup=1.26,alimiter=limit=0.95,aformat=channel_layouts=mono[aout];[0:v]subtitles='C\\:/clips/it\\'s \\[1\\].srt'[vsub];[vsub]scale=trunc(ih*4/3/2)*2:trunc(ih/2)*2,setsar=1,eq=contrast=0.97:brightness=0.015:saturation=0.78:gamma=1.07,hue=h=-8:s=0.92,boxblur=luma_radius=1.79:luma_power=1:chroma_radius=2.24:chroma_power=1,chromashift=cbh=3:crh=-3:cbv=1:crv=-1:edge=smear,lagfun=decay=0.92,noise=alls=5:allf=t:all_seed=37,drawbox=x=0:y='trunc(mod(t*61,ih))':w=iw:h=5:c=white@0.10:t=fill:enable='lt(mod(t,3.1),0.16)',drawbox=x=0:y='trunc(mod(t*83+ih/3,ih))':w=iw:h=2:c=black@0.07:t=fill:enable='lt(mod(t+1.7,4.4),0.12)',perspective=x0=8:y0=0:x1=W+8:y1=0:x2=-4:y2=H:x3=W-4:y3=H:interpolation=linear:eval=init:enable='lt(mod(t,3.1),0.16)',perspective=x0=-8:y0=0:x1=W-8:y1=0:x2=4:y2=H:x3=W+4:y3=H:interpolation=linear:eval=init:enable='lt(mod(t+1.7,4.4),0.12)',format=rgba,rgbashift=rh=2:bh=-2:rv=1:bv=-1:edge=smear,boxblur=luma_radius=0.80:luma_power=1:chroma_radius=0.80:chroma_power=1,eq=contrast=0.94:brightness=0.008:saturation=0.82:gamma=1.05,vignette=angle=PI/4,format=yuv420p[vout]",
        "-map",
        "[vout]",
        "-map",
        "[aout]",
        "-t",
        "1.500",
        "-c:v",
        "libx264",
        "-preset",
        "medium",
        "-crf",
        "18",
        "-c:a",
        "aac",
        "-b:a",
        "192k",
        "-ac",
        "1",
        "-avoid_negative_ts",
        "make_zero",
    ];
    assert_eq!(args, expected);
}

#[test]
fn export_args_without_any_stream_processing() {
    let tracks: Vec<&AudioTrack> = vec![];
    let mut args: Vec<String> = Vec::new();
    build_export_filter_cmd(&mut args, &tracks, false, 0, 0, 3000, None, false, 23, false, false, false, 0, false, "faded");
    let expected: Vec<&str> = vec![
        "-filter_complex",
        "",
        "-map",
        "0:v",
        "-map",
        "0:a?",
        "-t",
        "3.000",
        "-c:v",
        "copy",
        "-c:a",
        "aac",
        "-b:a",
        "192k",
        "-avoid_negative_ts",
        "make_zero",
    ];
    assert_eq!(args, expected);
}

