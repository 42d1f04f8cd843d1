use videdit::export::{segment_command_args, AudioTrack};

fn cut(merge: bool, compress: bool, burn: bool, original_radio: bool, has_audio: bool) -> Vec<String> {
    segment_command_args(
        "in.mp4", 1000, 3500, &[], None, has_audio, original_radio, 0, merge, compress, 23, burn, false, 0,
        false, "faded", "out.mp4",
    )
}

#[test]
fn plain_segment_is_stream_copied() {
    assert_eq!(
        cut(false, false, false, false, true),
        vec!["-y", "-ss", "1.000", "-i", "in.mp4", "-t", "2.500", "-c", "copy", "-avoid_negative_ts", "make_zero", "-map", "0", "out.mp4"]
    );
}

#[test]
fn original_radio_without_input_audio_is_plain_copy() {
    assert_eq!(cut(false, false, false, true, false), cut(false, false, false, false, false));
}

#[test]
fn merged_or_compressed_segment_is_reencoded_with_quality() {
    let expected = vec![
        "-y", "-ss", "1.000", "-i", "in.mp4", "-t", "2.500", "-c:v", "libx264", "-preset", "medium", "-crf", "23",
        "-c:a", "aac", "-b:a", "192k", "-avoid_negative_ts", "make_zero", "-map", "0", "out.mp4",
    ];
    assert_eq!(cut(true, false, false, false, true), expected);
    assert_eq!(cut(false, true, false, false, true), expected);
}

#[test]
fn burn_only_segment_is_reencoded_at_crf_18() {
    assert_eq!(
        cut(false, false, true, false, true),
        vec![
            "-y", "-ss", "1.000", "-i", "in.mp4", "-t", "2.500", "-c:v", "libx264", "-preset", "medium", "-crf",
            "18", "-c:a", "aac", "-b:a", "192k", "-avoid_negative_ts", "make_zero", "out.mp4",
        ]
    );
}

#[test]
fn dubbed_segment_adds_trimmed_inputs_and_a_filter_graph() {
    let dub = AudioTrack {
        id: "d".into(),
        segment_id: "s".into(),
        segment_start: 0,
        segment_end: 2500,
        file_path: "dub.wav".into(),
        audio_source_start: 250,
        audio_source_end: 1250,
        volume: 0.5f64.to_bits(),
        radio_effect: false,
        radio_intensity: 0,
    };
    let args = segment_command_args(
        "in.mp4", 1000, 3500, &[&dub], None, false, false, 0, false, false, 23, false, false, 0, false,
        "faded", "out.mp4",
    );
    assert_eq!(
        args,
        vec![
            "-y", "-ss", "1.000", "-i", "in.mp4", "-ss", "0.250", "-t", "1.000", "-i", "dub.wav",
            "-filter_complex", "[1:a]asetpts=PTS-STARTPTS,volume=0.50[aout]", "-map", "0:v", "-map", "[aout]",
            "-t", "2.500", "-c:v", "copy", "-c:a", "aac", "-b:a", "192k", "-avoid_negative_ts", "make_zero",
            "out.mp4",
        ]
    );
}

#[test]
fn burned_subtitles_go_through_the_filter_graph() {
    let args = segment_command_args(
        "in.mp4", 0, 2000, &[], Some("/tmp/sub_0.srt"), true, false, 0, false, false, 23, true, false, 0, false,
        "faded", "out.mp4",
    );
    assert_eq!(
        args,
        vec![
            "-y", "-ss", "0.000", "-i", "in.mp4", "-filter_complex", "[0:v]subtitles='/tmp/sub_0.srt'[vout]",
            "-map", "[vout]", "-map", "0:a?", "-t", "2.000", "-c:v", "libx264", "-preset", "medium", "-crf", "18",
            "-c:a", "aac", "-b:a", "192k", "-avoid_negative_ts", "make_zero", "out.mp4",
        ]
    );
}

fn dub_volume_filter(volume: f64) -> String {
    let dub = AudioTrack {
        id: "d".into(),
        segment_id: "s".into(),
        segment_start: 0,
        segment_end: 2500,
        file_path: "dub.wav".into(),
        audio_source_start: 0,
        audio_source_end: 1000,
        volume: volume.to_bits(),
        radio_effect: false,
        radio_intensity: 0,
    };
    let args = segment_command_args(
        "in.mp4", 0, 1000, &[&dub], None, false, false, 0, false, false, 23, false, false, 0, false,
        "faded", "out.mp4",
    );
    args[12].clone()
}

#[test]
fn dub_volume_is_clamped_and_rounded_like_its_float_value() {
    let f = |v: f64| dub_volume_filter(v).replace("[1:a]asetpts=PTS-STARTPTS,volume=", "").replace("[aout]", "");
    assert_eq!(f(0.005), "0.01");
    assert_eq!(f(0.125), "0.12");
    assert_eq!(f(0.375), "0.38");
    assert_eq!(f(1.0), "1.00");
    assert_eq!(f(2.0), "2.00");
    assert_eq!(f(3.7), "2.00");
    assert_eq!(f(f64::INFINITY), "2.00");
    assert_eq!(f(-1.0), "0.00");
    assert_eq!(f(f64::NEG_INFINITY), "0.00");
    assert_eq!(f(-0.0), "-0.00");
    assert_eq!(f(f64::NAN), "NaN");
    assert_eq!(f(1e-300), "0.00");
    for v in [0.004, 0.015, 0.025, 0.335, 1.005, 1.995, 0.3, 0.7] {
        assert_eq!(f(v), format!("{:.2}", v.clamp(0.0, 2.0)));
    }
}
