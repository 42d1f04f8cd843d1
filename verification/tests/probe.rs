use videdit::probe::{
    audio_stream_check, audio_streams_probe_args, ffmpeg_time_fields, has_any_stream, probe_args,
    split_frame_rate, video_from_probe, ProbeOutput, ProbeStream,
};

fn stream(codec_type: Option<&str>, codec_name: Option<&str>, width: Option<u64>) -> ProbeStream {
    ProbeStream {
        codec_type: codec_type.map(|s| s.to_string()),
        codec_name: codec_name.map(|s| s.to_string()),
        width,
        height: Some(1080),
        r_frame_rate: Some("30000/1001".to_string()),
    }
}

#[test]
fn video_probe_reads_first_stream() {
    let probe = ProbeOutput {
        streams: Some(vec![stream(Some("video"), Some("h264"), Some(1920))]),
        format_duration: Some("12.5".to_string()),
    };
    let v = video_from_probe("clip.mp4", &probe).unwrap();
    assert_eq!(v.path, "clip.mp4");
    assert_eq!(v.duration.as_deref(), Some("12.5"));
    assert_eq!((v.width, v.height), (1920, 1080));
    assert_eq!(v.codec, "h264");
    assert_eq!(v.frame_rate, "30000/1001");
}

#[test]
fn video_probe_defaults_missing_fields() {
    let probe = ProbeOutput {
        streams: Some(vec![ProbeStream { codec_type: None, codec_name: None, width: None, height: None, r_frame_rate: None }]),
        format_duration: None,
    };
    let v = video_from_probe("x", &probe).unwrap();
    assert_eq!((v.width, v.height), (0, 0));
    assert_eq!(v.codec, "unknown");
    assert_eq!(v.frame_rate, "0/1");
    assert_eq!(v.duration, None);
}

#[test]
fn video_probe_truncates_width_to_32_bits() {
    let probe = ProbeOutput { streams: Some(vec![stream(None, None, Some((1u64 << 32) + 5))]), format_duration: None };
    assert_eq!(video_from_probe("x", &probe).unwrap().width, 5);
}

#[test]
fn video_probe_without_streams_fails() {
    let empty = ProbeOutput { streams: Some(Vec::new()), format_duration: None };
    assert_eq!(video_from_probe("x", &empty).err(), Some("No video stream found".to_string()));
    let missing = ProbeOutput { streams: None, format_duration: None };
    assert_eq!(video_from_probe("x", &missing).err(), Some("No video stream found".to_string()));
    assert!(!has_any_stream(&empty));
    assert!(!has_any_stream(&missing));
}

#[test]
fn audio_probe_needs_first_stream_to_be_audio() {
    let audio = ProbeOutput { streams: Some(vec![stream(Some("audio"), None, None)]), format_duration: None };
    assert_eq!(audio_stream_check(&audio), Ok(()));
    assert!(has_any_stream(&audio));
    let video = ProbeOutput { streams: Some(vec![stream(Some("video"), None, None)]), format_duration: None };
    assert_eq!(audio_stream_check(&video), Err("No audio stream found".to_string()));
    let none = ProbeOutput { streams: Some(vec![stream(None, None, None)]), format_duration: None };
    assert_eq!(audio_stream_check(&none), Err("No audio stream found".to_string()));
}

#[test]
fn frame_rate_splits_on_one_slash() {
    assert_eq!(split_frame_rate("30000/1001"), Some(("30000".to_string(), "1001".to_string())));
    assert_eq!(split_frame_rate("/"), Some((String::new(), String::new())));
    assert_eq!(split_frame_rate("25"), None);
    assert_eq!(split_frame_rate("1/2/3"), None);
}

#[test]
fn progress_time_field_is_split_into_three_parts() {
    let line = "frame=  100 fps=25 q=28.0 size=  512kB time=00:01:23.45 bitrate= 50.5kbits/s";
    assert_eq!(
        ffmpeg_time_fields(line),
        Some(("00".to_string(), "01".to_string(), "23.45".to_string()))
    );
    assert_eq!(
        ffmpeg_time_fields("time=01:02:03.00"),
        Some(("01".to_string(), "02".to_string(), "03.00".to_string()))
    );
    assert_eq!(ffmpeg_time_fields("size=1kB time=N/A bitrate=N/A"), None);
    assert_eq!(ffmpeg_time_fields("no progress here"), None);
}

#[test]
fn probe_arguments() {
    assert_eq!(
        probe_args("v:0", "a.mp4"),
        vec!["-v", "quiet", "-print_format", "json", "-show_format", "-show_streams", "-select_streams", "v:0", "a.mp4"]
    );
    assert_eq!(
        audio_streams_probe_args("a.mp4"),
        vec!["-v", "quiet", "-print_format", "json", "-show_streams", "-select_streams", "a", "a.mp4"]
    );
}
