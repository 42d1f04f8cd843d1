use videdit::mic::{mic_file_name, unknown_if_none, MicCapture, MicRecordingState};
use videdit::recording::{
    check_recording_output, finish_plan, is_app_temp_file, mux_args, recording_file_names, screen_capture_args,
    stop_wait_step, video_file_usable, video_temp_file_name, FinishPlan, ProcessStatus, RecordingState, StopWaitStep,
};

#[test]
fn recording_start_and_stop_hand_back_the_output_path() {
    let mut state = RecordingState::default();
    assert_eq!(state.begin_start(), Ok(None));
    state.mark_started("/tmp/videdit-recording-7.mp4".to_string());
    assert!(state.is_recording);
    assert_eq!(state.begin_start(), Err("Already recording".to_string()));
    assert_eq!(state.begin_stop(true), Ok("/tmp/videdit-recording-7.mp4".to_string()));
    assert_eq!(state.output_path, None);
    state.mark_stopped("/tmp/videdit-recording-7.mp4".to_string());
    assert!(!state.is_recording);
    assert_eq!(state.begin_stop(true), Err("Not recording".to_string()));
    assert_eq!(state.begin_start(), Ok(Some("/tmp/videdit-recording-7.mp4".to_string())));
    assert_eq!(state.last_temp_path, None);
}

#[test]
fn recording_stop_without_process_or_path_fails() {
    let mut state = RecordingState::default();
    state.mark_started("out.mp4".to_string());
    assert_eq!(state.begin_stop(false), Err("No FFmpeg process found".to_string()));
    assert_eq!(state.output_path.as_deref(), Some("out.mp4"));
    state.output_path = None;
    assert_eq!(state.begin_stop(true), Err("No output path".to_string()));
}

#[test]
fn cleanup_takes_the_kept_file() {
    let mut state = RecordingState::default();
    state.mark_stopped("kept.mp4".to_string());
    assert_eq!(state.take_last_temp(), Some("kept.mp4".to_string()));
    assert_eq!(state.take_last_temp(), None);
}

#[test]
fn recording_files_are_stamped() {
    let f = recording_file_names(1700000000);
    assert_eq!(f.video_temp, "videdit-rec-video-1700000000.mp4");
    assert_eq!(f.audio_temp, "videdit-rec-audio-1700000000.wav");
    assert_eq!(f.final_output, "videdit-recording-1700000000.mp4");
    assert_eq!(video_temp_file_name(&f.final_output), f.video_temp);
    assert_eq!(video_temp_file_name("other.mp4"), "other.mp4");
}

#[test]
fn finishing_keeps_the_right_files() {
    assert_eq!(finish_plan(true, true, true), FinishPlan::MuxAudioAndVideo);
    assert_eq!(finish_plan(true, true, false), FinishPlan::AudioOnly);
    assert_eq!(finish_plan(true, false, true), FinishPlan::VideoOnly { discard_audio: false });
    assert_eq!(finish_plan(false, true, false), FinishPlan::VideoOnly { discard_audio: true });
}

#[test]
fn temp_files_are_recognised_by_prefix() {
    assert!(is_app_temp_file("videdit-mic-1.wav"));
    assert!(is_app_temp_file("videdit-"));
    assert!(!is_app_temp_file("videdit"));
    assert!(!is_app_temp_file("my-videdit-file"));
}

#[test]
fn capture_and_mux_arguments() {
    assert_eq!(
        screen_capture_args("v.mp4"),
        vec!["-y", "-f", "gdigrab", "-framerate", "30", "-i", "desktop", "-c:v", "libx264", "-preset", "ultrafast", "-crf", "23", "-g", "30", "v.mp4"]
    );
    assert_eq!(
        mux_args("v.mp4", "a.wav", "o.mp4"),
        vec!["-y", "-i", "v.mp4", "-i", "a.wav", "-c:v", "copy", "-c:a", "aac", "-b:a", "192k", "-shortest", "o.mp4"]
    );
}

fn capture(path: &str, device: Option<&str>) -> MicCapture {
    MicCapture { output_path: path.to_string(), device_name: device.map(|d| d.to_string()) }
}

#[test]
fn mic_stop_reports_the_started_recording() {
    let mut state = MicRecordingState::default();
    assert_eq!(state.start("seg-1".to_string(), capture("m.wav", Some("Mic")), true), Ok(()));
    let info = state.stop().unwrap();
    assert_eq!(info.segment_id, "seg-1");
    assert_eq!(info.file_path, "m.wav");
    assert_eq!(info.device_name, "Mic");
    assert!(info.stopped_capture);
    assert_eq!(state.stop().err(), Some("No segment ID for recording".to_string()));
}

#[test]
fn mic_start_without_device_is_refused() {
    let mut state = MicRecordingState::default();
    assert_eq!(
        state.start("seg-1".to_string(), capture("m.wav", None), false),
        Err("No microphone device available".to_string())
    );
    assert_eq!(state.segment_id, None);
}

#[test]
fn mic_stop_after_capture_ended_uses_remembered_file() {
    let mut state = MicRecordingState::default();
    state.start("seg-2".to_string(), capture("n.wav", None), true).unwrap();
    state.capture = None;
    let info = state.stop().unwrap();
    assert_eq!(info.file_path, "n.wav");
    assert_eq!(info.device_name, "Unknown");
    assert!(!info.stopped_capture);

    let mut state = MicRecordingState::default();
    state.segment_id = Some("seg-3".to_string());
    assert_eq!(state.stop().err(), Some("No output path stored".to_string()));
}

#[test]
fn mic_shortcut_forgets_everything() {
    let mut state = MicRecordingState::default();
    assert!(state.stop_by_shortcut().is_none());
    state.start("seg-4".to_string(), capture("p.wav", Some("Headset")), true).unwrap();
    let info = state.stop_by_shortcut().unwrap();
    assert_eq!((info.segment_id.as_str(), info.file_path.as_str(), info.device_name.as_str()), ("seg-4", "p.wav", "Headset"));
    assert!(info.stopped_capture);
    assert!(state.segment_id.is_none() && state.output_path.is_none() && state.capture.is_none());
    assert_eq!(mic_file_name(1234), "videdit-mic-1234.wav");
}

#[test]
fn small_or_missing_video_is_not_usable() {
    assert!(!video_file_usable(None));
    assert!(!video_file_usable(Some(0)));
    assert!(!video_file_usable(Some(1024)));
    assert!(video_file_usable(Some(1025)));
}

#[test]
fn empty_recording_output_is_an_error() {
    assert_eq!(check_recording_output(10, "/tmp/r.mp4"), Ok(()));
    assert_eq!(
        check_recording_output(0, "/tmp/r.mp4"),
        Err("Recording output is missing or empty: /tmp/r.mp4".to_string())
    );
}

#[test]
fn unknown_device_name_falls_back() {
    assert_eq!(unknown_if_none(None), "Unknown");
    assert_eq!(unknown_if_none(Some("Mic".to_string())), "Mic");
}

#[test]
fn stopping_capture_polls_until_exit_or_deadline() {
    assert_eq!(stop_wait_step(ProcessStatus::Exited, 0), StopWaitStep::Done);
    assert_eq!(stop_wait_step(ProcessStatus::Unknown, 100), StopWaitStep::Done);
    assert_eq!(stop_wait_step(ProcessStatus::Running, 0), StopWaitStep::Poll);
    assert_eq!(stop_wait_step(ProcessStatus::Running, 4999), StopWaitStep::Poll);
    assert_eq!(stop_wait_step(ProcessStatus::Running, 5000), StopWaitStep::Kill);
    assert_eq!(stop_wait_step(ProcessStatus::Exited, 9000), StopWaitStep::Done);
}
