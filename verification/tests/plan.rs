use videdit::export::AudioTrack;
use videdit::plan::{
    concat_list, cutting_message, export_flow, ffmpeg_failure_message, merge_args, numbered_file_name,
    segment_file_name, segment_goes_to_temp_file, segment_subtitle_file_name, separate_files_message,
    tracks_for_segment, writes_subtitle_file, ExportFlow,
};

fn track(id: &str, segment_id: &str) -> AudioTrack {
    AudioTrack {
        id: id.into(),
        segment_id: segment_id.into(),
        segment_start: 0,
        segment_end: 1000,
        file_path: format!("{id}.wav"),
        audio_source_start: 0,
        audio_source_end: 1000,
        volume: 1.0f64.to_bits(),
        radio_effect: false,
        radio_intensity: 0,
    }
}

#[test]
fn export_flow_follows_segments_subtitles_and_merge() {
    assert_eq!(export_flow(0, true, false, false), ExportFlow::SubtitlesOnly);
    assert_eq!(export_flow(0, true, true, false), ExportFlow::SeparateFiles);
    assert_eq!(export_flow(0, false, false, true), ExportFlow::Merged);
    assert_eq!(export_flow(1, true, false, false), ExportFlow::SingleFile);
    assert_eq!(export_flow(1, false, false, true), ExportFlow::Merged);
    assert_eq!(export_flow(3, false, false, false), ExportFlow::SeparateFiles);
    assert_eq!(export_flow(3, false, false, true), ExportFlow::Merged);
}

#[test]
fn side_subtitle_file_and_temp_outputs() {
    assert!(writes_subtitle_file(true, false));
    assert!(!writes_subtitle_file(true, true));
    assert!(!writes_subtitle_file(false, false));
    assert!(segment_goes_to_temp_file(true, 1));
    assert!(segment_goes_to_temp_file(false, 2));
    assert!(!segment_goes_to_temp_file(false, 1));
}

#[test]
fn file_names_are_zero_padded() {
    assert_eq!(segment_file_name(7), "segment_0007.mp4");
    assert_eq!(segment_file_name(12345), "segment_12345.mp4");
    assert_eq!(segment_subtitle_file_name(3), "sub_3.srt");
    assert_eq!(numbered_file_name("clip", 1, "mp4"), "clip_001.mp4");
    assert_eq!(numbered_file_name("clip", 1234, "srt"), "clip_1234.srt");
    assert_eq!(numbered_file_name("a.b", 20, ""), "a.b_020.");
}

#[test]
fn tracks_are_picked_by_segment_id() {
    let tracks = vec![track("t1", "s1"), track("t2", "s2"), track("t3", "s1")];
    let picked: Vec<&str> = tracks_for_segment(&tracks, &"s1".to_string()).iter().map(|t| t.id.as_str()).collect();
    assert_eq!(picked, vec!["t1", "t3"]);
    assert!(tracks_for_segment(&tracks, &"none".to_string()).is_empty());
}

#[test]
fn concat_list_uses_forward_slashes() {
    let files = vec!["C:\\tmp\\segment_0000.mp4".to_string(), "/tmp/segment_0001.mp4".to_string()];
    assert_eq!(concat_list(&files), "file 'C:/tmp/segment_0000.mp4'\nfile '/tmp/segment_0001.mp4'");
    assert_eq!(concat_list(&Vec::new()), "");
}

#[test]
fn merge_copies_listed_segments() {
    assert_eq!(
        merge_args("/tmp/concat.txt", "out.mp4"),
        vec!["-y", "-f", "concat", "-safe", "0", "-i", "/tmp/concat.txt", "-c", "copy", "out.mp4"]
    );
}

#[test]
fn failure_message_keeps_first_three_error_lines() {
    let lines: Vec<String> = vec![
        "ffmpeg version 6".into(),
        "Error opening input".into(),
        "some info".into(),
        "Invalid data found".into(),
        "conversion error".into(),
        "another Error".into(),
    ];
    assert_eq!(
        ffmpeg_failure_message(0, &lines),
        "FFmpeg failed on segment 1: Error opening input | Invalid data found | conversion error"
    );
}

#[test]
fn failure_message_falls_back_to_first_ten_lines() {
    let lines: Vec<String> = (1..=12).map(|i| format!("line {i}")).collect();
    assert_eq!(
        ffmpeg_failure_message(4, &lines),
        "FFmpeg failed on segment 5: line 1 | line 2 | line 3 | line 4 | line 5 | line 6 | line 7 | line 8 | line 9 | line 10"
    );
    assert_eq!(ffmpeg_failure_message(0, &Vec::new()), "FFmpeg failed on segment 1: ");
}

#[test]
fn progress_messages_count_from_one() {
    assert_eq!(cutting_message(0, 3), "Cutting segment 1 of 3");
    assert_eq!(cutting_message(2, 3), "Cutting segment 3 of 3");
    assert_eq!(separate_files_message(12), "Exported 12 separate files");
}
