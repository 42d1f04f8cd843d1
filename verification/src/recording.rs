//! Screen recording bookkeeping: the recording state and its transitions,
//! the temporary file names, and what is kept once capture stops.

use vstd::prelude::*;
use crate::text::{dec, replace_all, views, chars_of, push_dec, replace_str};

verus! {

/// What the editor remembers about screen recording.
pub struct RecordingState {
    /// A recording is running.
    pub is_recording: bool,
    /// Where the running recording will be saved.
    pub output_path: Option<String>,
    /// The file kept by the last recording, removed before the next one
    /// starts or when temporary files are cleaned up.
    pub last_temp_path: Option<String>,
}

impl Default for RecordingState {
    fn default() -> (r: Self)
        ensures
            r == idle_state(),
    {
        RecordingState { is_recording: false, output_path: None, last_temp_path: None }
    }
}

/// No recording, nothing remembered.
pub open spec fn idle_state() -> RecordingState {
    RecordingState { is_recording: false, output_path: None, last_temp_path: None }
}

/// A start request: refused while recording (state unchanged); otherwise
/// the previous recording's file is handed out for removal and forgotten.
pub open spec fn start_outcome(s: RecordingState) -> (RecordingState, Result<Option<String>, Seq<char>>) {
    if s.is_recording {
        (s, Err("Already recording"@))
    } else {
        (RecordingState { last_temp_path: None, ..s }, Ok(s.last_temp_path))
    }
}

/// Capture has started and will be saved to `final_output`.
pub open spec fn started(s: RecordingState, final_output: String) -> RecordingState {
    RecordingState { is_recording: true, output_path: Some(final_output), ..s }
}

/// A stop request: refused when not recording, when no FFmpeg process is
/// held, or when no output path is known (which is then forgotten);
/// otherwise the output path is handed out and forgotten.
pub open spec fn stop_outcome(s: RecordingState, has_ffmpeg_child: bool) -> (RecordingState, Result<String, Seq<char>>) {
    if !s.is_recording {
        (s, Err("Not recording"@))
    } else if !has_ffmpeg_child {
        (s, Err("No FFmpeg process found"@))
    } else {
        match s.output_path {
            Some(p) => (RecordingState { output_path: None, ..s }, Ok(p)),
            None => (s, Err("No output path"@)),
        }
    }
}

/// Capture has stopped and `result_path` was kept.
pub open spec fn stopped(s: RecordingState, result_path: String) -> RecordingState {
    RecordingState { is_recording: false, last_temp_path: Some(result_path), ..s }
}

/// An exec result with its error message taken by its characters.
pub open spec fn msg_err<T>(r: Result<T, String>) -> Result<T, Seq<char>> {
    match r {
        Ok(v) => Ok(v),
        Err(e) => Err(e@),
    }
}

impl RecordingState {
    /// Handles a start request (see `start_outcome`): on success returns the
    /// previous recording's file, which the caller removes.
    pub fn begin_start(&mut self) -> (r: Result<Option<String>, String>)
        ensures
            (*final(self), msg_err(r)) == start_outcome(*old(self)),
    {
        if self.is_recording {
            return Err("Already recording".to_owned());
        }
        let prev = self.last_temp_path.take();
        Ok(prev)
    }

    /// Records that capture started, to be saved to `final_output`.
    pub fn mark_started(&mut self, final_output: String)
        ensures
            *final(self) == started(*old(self), final_output),
    {
        self.is_recording = true;
        self.output_path = Some(final_output);
    }

    /// Handles a stop request (see `stop_outcome`); `has_ffmpeg_child` tells
    /// whether the capture process is held. On success returns the path the
    /// recording is saved to.
    pub fn begin_stop(&mut self, has_ffmpeg_child: bool) -> (r: Result<String, String>)
        ensures
            (*final(self), msg_err(r)) == stop_outcome(*old(self), has_ffmpeg_child),
    {
        if !self.is_recording {
            return Err("Not recording".to_owned());
        }
        if !has_ffmpeg_child {
            return Err("No FFmpeg process found".to_owned());
        }
        match self.output_path.take() {
            Some(p) => Ok(p),
            None => Err("No output path".to_owned()),
        }
    }

    /// Records that capture stopped and `result_path` was kept.
    pub fn mark_stopped(&mut self, result_path: String)
        ensures
            *final(self) == stopped(*old(self), result_path),
    {
        self.is_recording = false;
        self.last_temp_path = Some(result_path);
    }

    /// Hands out the kept file of the last recording for removal and forgets it.
    pub fn take_last_temp(&mut self) -> (r: Option<String>)
        ensures
            r == old(self).last_temp_path,
            *final(self) == (RecordingState { last_temp_path: None, ..*old(self) }),
    {
        self.last_temp_path.take()
    }
}

/// A start request while recording is refused and changes nothing.
pub proof fn law_start_refused_while_recording(s: RecordingState)
    requires
        s.is_recording,
    ensures
        start_outcome(s) == (s, Err::<Option<String>, Seq<char>>("Already recording"@)),
{
}

/// A stop request while not recording is refused and changes nothing.
pub proof fn law_stop_refused_when_idle(s: RecordingState, has_ffmpeg_child: bool)
    requires
        !s.is_recording,
    ensures
        stop_outcome(s, has_ffmpeg_child) == (s, Err::<String, Seq<char>>("Not recording"@)),
{
}

/// Starting and then stopping (with the capture process held) hands back
/// exactly the output path the start recorded, and leaves no output path.
pub proof fn law_stop_returns_started_output(s: RecordingState, final_output: String)
    requires
        !s.is_recording,
    ensures
        ({
            let after_start = started(start_outcome(s).0, final_output);
            &&& start_outcome(s).1 is Ok
            &&& after_start.is_recording
            &&& stop_outcome(after_start, true).1 == Ok::<String, Seq<char>>(final_output)
            &&& stop_outcome(after_start, true).0.output_path is None
        }),
{
}

/// The file kept by a finished recording is handed out for removal by the
/// next start, and then forgotten.
pub proof fn law_next_start_removes_kept_file(s: RecordingState, result_path: String)
    ensures
        ({
            let after_stop = stopped(s, result_path);
            &&& !after_stop.is_recording
            &&& start_outcome(after_stop).1 == Ok::<Option<String>, Seq<char>>(Some(result_path))
            &&& start_outcome(after_stop).0.last_temp_path is None
        }),
{
}

/// Names of the recording's temporary video, temporary audio, and final
/// output files.
pub struct RecordingFiles {
    pub video_temp: String,
    pub audio_temp: String,
    pub final_output: String,
}

/// Names of a recording's files, stamped with `timestamp` (seconds):
/// `videdit-rec-video-<ts>.mp4`, `videdit-rec-audio-<ts>.wav` and
/// `videdit-recording-<ts>.mp4`.
pub fn recording_file_names(timestamp: u64) -> (f: RecordingFiles)
    ensures
        f.video_temp@ == "videdit-rec-video-"@ + dec(timestamp as nat) + ".mp4"@,
        f.audio_temp@ == "videdit-rec-audio-"@ + dec(timestamp as nat) + ".wav"@,
        f.final_output@ == "videdit-recording-"@ + dec(timestamp as nat) + ".mp4"@,
{
    let mut video_temp = "videdit-rec-video-".to_owned();
    push_dec(&mut video_temp, timestamp);
    video_temp.push_str(".mp4");
    let mut audio_temp = "videdit-rec-audio-".to_owned();
    push_dec(&mut audio_temp, timestamp);
    audio_temp.push_str(".wav");
    let mut final_output = "videdit-recording-".to_owned();
    push_dec(&mut final_output, timestamp);
    final_output.push_str(".mp4");
    RecordingFiles { video_temp, audio_temp, final_output }
}

/// The temporary video file name belonging to a final output file name.
pub fn video_temp_file_name(final_name: &str) -> (r: String)
    ensures
        r@ == replace_all(final_name@, "videdit-recording-"@, "videdit-rec-video-"@),
{
    proof {
        reveal_strlit("videdit-recording-");
    }
    replace_str(final_name, "videdit-recording-", "videdit-rec-video-")
}

/// What is kept once capture stops.
#[derive(Clone, Copy, Debug, PartialEq, Eq, Structural)]
pub enum FinishPlan {
    /// Mux the video and the captured audio into the final file.
    MuxAudioAndVideo,
    /// No usable video: keep the audio as a `.wav` recording.
    AudioOnly,
    /// Keep the video (when usable) as the final file, removing the audio
    /// file when `discard_audio`.
    VideoOnly { discard_audio: bool },
}

/// Muxing when audio was captured and the video is usable, audio only when
/// the video is not, and video only when no audio was captured (the
/// audio file is discarded when the capture reported no audio).
pub open spec fn finish_plan_spec(has_audio: bool, audio_path_known: bool, video_valid: bool) -> FinishPlan {
    if has_audio {
        if audio_path_known {
            if video_valid { FinishPlan::MuxAudioAndVideo } else { FinishPlan::AudioOnly }
        } else {
            FinishPlan::VideoOnly { discard_audio: false }
        }
    } else {
        FinishPlan::VideoOnly { discard_audio: true }
    }
}

/// Without captured audio the video is kept alone and the audio file is
/// discarded; a mux needs captured audio with a known file and a usable
/// video; the audio alone is kept only when audio was captured to a known
/// file and the video is unusable; the audio file is discarded exactly when
/// no audio was captured.
pub proof fn law_finish_plan_keeps_what_was_captured(has_audio: bool, audio_path_known: bool, video_valid: bool)
    ensures
        !has_audio ==> finish_plan_spec(has_audio, audio_path_known, video_valid)
            == (FinishPlan::VideoOnly { discard_audio: true }),
        (finish_plan_spec(has_audio, audio_path_known, video_valid) == FinishPlan::MuxAudioAndVideo)
            <==> (has_audio && audio_path_known && video_valid),
        (finish_plan_spec(has_audio, audio_path_known, video_valid) == FinishPlan::AudioOnly)
            <==> (has_audio && audio_path_known && !video_valid),
        (finish_plan_spec(has_audio, audio_path_known, video_valid) == (FinishPlan::VideoOnly { discard_audio: false }))
            <==> (has_audio && !audio_path_known),
{
}

/// Decides what to keep once capture stops (see `finish_plan_spec`).
pub fn finish_plan(has_audio: bool, audio_path_known: bool, video_valid: bool) -> (p: FinishPlan)
    ensures
        p == finish_plan_spec(has_audio, audio_path_known, video_valid),
{
    if has_audio {
        if audio_path_known {
            if video_valid { FinishPlan::MuxAudioAndVideo } else { FinishPlan::AudioOnly }
        } else {
            FinishPlan::VideoOnly { discard_audio: false }
        }
    } else {
        FinishPlan::VideoOnly { discard_audio: true }
    }
}

/// The captured video is usable when its file holds more than 1024 bytes;
/// `size` is `None` when the file is missing or unreadable.
pub fn video_file_usable(size: Option<u64>) -> (r: bool)
    ensures
        r == (size matches Some(n) && n > 1024),
{
    match size {
        Some(n) => n > 1024,
        None => false,
    }
}

/// The kept recording must not be empty: fails with "Recording output is
/// missing or empty: <path>" exactly when `size` is zero.
pub fn check_recording_output(size: u64, path: &str) -> (r: Result<(), String>)
    ensures
        match r {
            Ok(()) => size > 0,
            Err(e) => size == 0 && e@ == "Recording output is missing or empty: "@ + path@,
        },
{
    if size == 0 {
        let mut e = "Recording output is missing or empty: ".to_owned();
        e.push_str(path);
        Err(e)
    } else {
        Ok(())
    }
}

/// How long a stopping capture process gets to exit before it is killed.
pub const STOP_DEADLINE_MS: u64 = 5000;

/// How often a stopping capture process is checked.
pub const STOP_POLL_MS: u64 = 100;

/// What checking a stopping capture process found.
#[derive(Clone, Copy, Debug, PartialEq, Eq, Structural)]
pub enum ProcessStatus {
    /// It has exited.
    Exited,
    /// It is still running.
    Running,
    /// Its status could not be read.
    Unknown,
}

/// The next step while waiting for a stopping capture process.
#[derive(Clone, Copy, Debug, PartialEq, Eq, Structural)]
pub enum StopWaitStep {
    /// Stop waiting.
    Done,
    /// Kill the process, wait for it, and stop waiting.
    Kill,
    /// Sleep `STOP_POLL_MS` and check again.
    Poll,
}

/// The waiting rule once a stop was requested: done when the process has
/// exited or its status cannot be read; while it runs, kill it once
/// `STOP_DEADLINE_MS` have passed, otherwise poll again.
pub open spec fn stop_wait_step_spec(status: ProcessStatus, elapsed_ms: int) -> StopWaitStep {
    match status {
        ProcessStatus::Running => if elapsed_ms >= STOP_DEADLINE_MS { StopWaitStep::Kill } else { StopWaitStep::Poll },
        _ => StopWaitStep::Done,
    }
}

/// Decides the next step while waiting for a stopping capture process
/// (see `stop_wait_step_spec`); `elapsed_ms` counts from the stop request.
pub fn stop_wait_step(status: ProcessStatus, elapsed_ms: u64) -> (r: StopWaitStep)
    ensures
        r == stop_wait_step_spec(status, elapsed_ms as int),
{
    match status {
        ProcessStatus::Running => if elapsed_ms >= STOP_DEADLINE_MS { StopWaitStep::Kill } else { StopWaitStep::Poll },
        _ => StopWaitStep::Done,
    }
}

/// A file of the temporary directory that the editor created: its name
/// starts with "videdit-".
pub fn is_app_temp_file(name: &str) -> (r: bool)
    ensures
        r == (name@.len() >= "videdit-"@.len() && name@.take("videdit-"@.len() as int) == "videdit-"@),
{
    let cs = chars_of(name);
    let prefix = chars_of("videdit-");
    if cs.len() < prefix.len() {
        return false;
    }
    let mut i: usize = 0;
    while i < prefix.len()
        invariant
            cs@ == name@,
            prefix@ == "videdit-"@,
            prefix@.len() <= cs@.len(),
            i <= prefix@.len(),
            forall|j: int| 0 <= j < i ==> cs@[j] == prefix@[j],
        decreases prefix@.len() - i,
    {
        if cs[i] != prefix[i] {
            assert(name@.take(prefix@.len() as int)[i as int] != prefix@[i as int]);
            return false;
        }
        i = i + 1;
    }
    assert(name@.take(prefix@.len() as int) =~= prefix@);
    true
}

/// FFmpeg arguments that capture the desktop at 30 frames per second into
/// `video_path` (H.264, fastest preset, CRF 23, a keyframe every second).
pub fn screen_capture_args(video_path: &str) -> (r: Vec<String>)
    ensures
        views(r@) == seq!["-y"@, "-f"@, "gdigrab"@, "-framerate"@, "30"@, "-i"@, "desktop"@,
            "-c:v"@, "libx264"@, "-preset"@, "ultrafast"@, "-crf"@, "23"@, "-g"@, "30"@, video_path@],
{
    let mut r: Vec<String> = Vec::new();
    r.push("-y".to_owned());
    r.push("-f".to_owned());
    r.push("gdigrab".to_owned());
    r.push("-framerate".to_owned());
    r.push("30".to_owned());
    r.push("-i".to_owned());
    r.push("desktop".to_owned());
    r.push("-c:v".to_owned());
    r.push("libx264".to_owned());
    r.push("-preset".to_owned());
    r.push("ultrafast".to_owned());
    r.push("-crf".to_owned());
    r.push("23".to_owned());
    r.push("-g".to_owned());
    r.push("30".to_owned());
    r.push(video_path.to_owned());
    assert(views(r@) =~= seq!["-y"@, "-f"@, "gdigrab"@, "-framerate"@, "30"@, "-i"@, "desktop"@,
        "-c:v"@, "libx264"@, "-preset"@, "ultrafast"@, "-crf"@, "23"@, "-g"@, "30"@, video_path@]);
    r
}

/// FFmpeg arguments that mux `video_path` and `audio_path` into
/// `output_path`, copying the video, encoding the audio as AAC, and
/// stopping at the shorter input.
pub fn mux_args(video_path: &str, audio_path: &str, output_path: &str) -> (r: Vec<String>)
    ensures
        views(r@) == seq!["-y"@, "-i"@, video_path@, "-i"@, audio_path@, "-c:v"@, "copy"@,
            "-c:a"@, "aac"@, "-b:a"@, "192k"@, "-shortest"@, output_path@],
{
    let mut r: Vec<String> = Vec::new();
    r.push("-y".to_owned());
    r.push("-i".to_owned());
    r.push(video_path.to_owned());
    r.push("-i".to_owned());
    r.push(audio_path.to_owned());
    r.push("-c:v".to_owned());
    r.push("copy".to_owned());
    r.push("-c:a".to_owned());
    r.push("aac".to_owned());
    r.push("-b:a".to_owned());
    r.push("192k".to_owned());
    r.push("-shortest".to_owned());
    r.push(output_path.to_owned());
    assert(views(r@) =~= seq!["-y"@, "-i"@, video_path@, "-i"@, audio_path@, "-c:v"@, "copy"@,
        "-c:a"@, "aac"@, "-b:a"@, "192k"@, "-shortest"@, output_path@]);
    r
}

} // verus!
