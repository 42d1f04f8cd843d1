//! Microphone recordings for dubbing a segment: the recording state, its
//! start and stop transitions, and the capture file name.

use vstd::prelude::*;
use crate::text::{dec, push_dec};

verus! {

/// The running capture of a microphone recording: where it writes and the
/// device it records from.
pub struct MicCapture {
    pub output_path: String,
    pub device_name: Option<String>,
}

/// What the editor remembers about the microphone recording.
pub struct MicRecordingState {
    /// The capture that is running, if any.
    pub capture: Option<MicCapture>,
    /// The segment being dubbed.
    pub segment_id: Option<String>,
    /// The capture file of the recording.
    pub output_path: Option<String>,
    /// The capture device of the recording.
    pub device_name: Option<String>,
}

impl Default for MicRecordingState {
    fn default() -> (r: Self)
        ensures
            r == mic_idle(),
    {
        MicRecordingState { capture: None, segment_id: None, output_path: None, device_name: None }
    }
}

/// Nothing recorded or remembered.
pub open spec fn mic_idle() -> MicRecordingState {
    MicRecordingState { capture: None, segment_id: None, output_path: None, device_name: None }
}

/// The result of stopping a microphone recording: the dubbed segment, the
/// capture file, the device name ("Unknown" when not known), and whether a
/// running capture was stopped by this request.
pub struct MicStopInfo {
    pub segment_id: String,
    pub file_path: String,
    pub device_name: String,
    pub stopped_capture: bool,
}

/// Name of a microphone capture file: `videdit-mic-<ms>.wav`.
pub fn mic_file_name(timestamp_ms: u64) -> (r: String)
    ensures
        r@ == "videdit-mic-"@ + dec(timestamp_ms as nat) + ".wav"@,
{
    let mut s = "videdit-mic-".to_owned();
    push_dec(&mut s, timestamp_ms);
    s.push_str(".wav");
    s
}

/// A start request with a new `capture`: refused, changing nothing, when no
/// microphone was found; otherwise the capture, segment, file and device
/// are remembered.
pub open spec fn mic_start_outcome(
    s: MicRecordingState,
    segment_id: String,
    capture: MicCapture,
    has_audio: bool,
) -> (MicRecordingState, Result<(), Seq<char>>) {
    if !has_audio {
        (s, Err("No microphone device available"@))
    } else {
        (
            MicRecordingState {
                output_path: Some(capture.output_path),
                device_name: capture.device_name,
                capture: Some(capture),
                segment_id: Some(segment_id),
            },
            Ok(()),
        )
    }
}

/// A stop request: refused without a segment (which stays forgotten);
/// with a running capture, reports its file and device and forgets it;
/// otherwise reports the remembered file and device, refused when no file
/// is remembered, and forgets them.
pub open spec fn mic_stop_outcome(s: MicRecordingState) -> (MicRecordingState, Result<(Seq<char>, Seq<char>, Seq<char>, bool), Seq<char>>) {
    match s.segment_id {
        None => (s, Err("No segment ID for recording"@)),
        Some(sid) => match s.capture {
            Some(c) => (
                MicRecordingState { capture: None, segment_id: None, ..s },
                Ok((sid@, c.output_path@, device_or_unknown(c.device_name), true)),
            ),
            None => match s.output_path {
                None => (MicRecordingState { segment_id: None, ..s }, Err("No output path stored"@)),
                Some(p) => (
                    MicRecordingState { segment_id: None, output_path: None, device_name: None, ..s },
                    Ok((sid@, p@, device_or_unknown(s.device_name), false)),
                ),
            },
        },
    }
}

/// A device name, or "Unknown".
pub open spec fn device_or_unknown(d: Option<String>) -> Seq<char> {
    match d {
        Some(n) => n@,
        None => "Unknown"@,
    }
}

/// The stop result by its characters.
pub open spec fn stop_info_view(r: Result<MicStopInfo, String>) -> Result<(Seq<char>, Seq<char>, Seq<char>, bool), Seq<char>> {
    match r {
        Ok(i) => Ok((i.segment_id@, i.file_path@, i.device_name@, i.stopped_capture)),
        Err(e) => Err(e@),
    }
}

/// A stop from the global shortcut: everything is forgotten; when a
/// segment was being dubbed, its file (empty when not remembered) and the
/// remembered device are reported.
pub open spec fn mic_shortcut_outcome(s: MicRecordingState) -> (MicRecordingState, Option<(Seq<char>, Seq<char>, Seq<char>, bool)>) {
    (
        mic_idle(),
        match s.segment_id {
            Some(sid) => Some((
                sid@,
                match s.output_path { Some(p) => p@, None => Seq::empty() },
                device_or_unknown(s.device_name),
                s.capture is Some,
            )),
            None => None,
        },
    )
}

/// The device name, or "Unknown" when it is not known.
pub fn unknown_if_none(d: Option<String>) -> (r: String)
    ensures
        r@ == device_or_unknown(d),
{
    match d {
        Some(n) => n,
        None => "Unknown".to_owned(),
    }
}

impl MicRecordingState {
    /// Handles a start request (see `mic_start_outcome`); `has_audio` tells
    /// whether the new capture found a microphone.
    pub fn start(&mut self, segment_id: String, capture: MicCapture, has_audio: bool) -> (r: Result<(), String>)
        ensures
            (*final(self), match r { Ok(()) => Ok(()), Err(e) => Err(e@) })
                == mic_start_outcome(*old(self), segment_id, capture, has_audio),
    {
        if !has_audio {
            return Err("No microphone device available".to_owned());
        }
        self.output_path = Some(capture.output_path.clone());
        self.device_name = match &capture.device_name {
            Some(d) => Some(d.clone()),
            None => None,
        };
        self.capture = Some(capture);
        self.segment_id = Some(segment_id);
        Ok(())
    }

    /// Handles a stop request (see `mic_stop_outcome`).
    pub fn stop(&mut self) -> (r: Result<MicStopInfo, String>)
        ensures
            (*final(self), stop_info_view(r)) == mic_stop_outcome(*old(self)),
    {
        let segment_id = match self.segment_id.take() {
            Some(s) => s,
            None => return Err("No segment ID for recording".to_owned()),
        };
        match self.capture.take() {
            Some(c) => Ok(MicStopInfo {
                segment_id,
                file_path: c.output_path,
                device_name: unknown_if_none(c.device_name),
                stopped_capture: true,
            }),
            None => {
                let output_path = match self.output_path.take() {
                    Some(p) => p,
                    None => return Err("No output path stored".to_owned()),
                };
                let device_name = self.device_name.take();
                Ok(MicStopInfo {
                    segment_id,
                    file_path: output_path,
                    device_name: unknown_if_none(device_name),
                    stopped_capture: false,
                })
            },
        }
    }

    /// Handles a stop from the global shortcut (see `mic_shortcut_outcome`).
    pub fn stop_by_shortcut(&mut self) -> (r: Option<MicStopInfo>)
        ensures
            (*final(self), match r {
                Some(i) => Some((i.segment_id@, i.file_path@, i.device_name@, i.stopped_capture)),
                None => None,
            }) == mic_shortcut_outcome(*old(self)),
    {
        let segment_id = self.segment_id.take();
        let stopped_capture = self.capture.take().is_some();
        let output_path = self.output_path.take();
        let device_name = self.device_name.take();
        match segment_id {
            Some(sid) => Some(MicStopInfo {
                segment_id: sid,
                file_path: match output_path { Some(p) => p, None => String::new() },
                device_name: unknown_if_none(device_name),
                stopped_capture,
            }),
            None => None,
        }
    }
}

/// Stopping right after a successful start reports the started segment
/// and the new capture's file, and leaves no capture running.
pub proof fn law_mic_stop_reports_started_recording(s: MicRecordingState, segment_id: String, capture: MicCapture)
    ensures
        ({
            let after = mic_start_outcome(s, segment_id, capture, true).0;
            &&& mic_stop_outcome(after).1 == Ok::<(Seq<char>, Seq<char>, Seq<char>, bool), Seq<char>>(
                (segment_id@, capture.output_path@, device_or_unknown(capture.device_name), true))
            &&& mic_stop_outcome(after).0.capture is None
        }),
{
}

/// A start without a microphone is refused and changes nothing.
pub proof fn law_mic_start_without_device_changes_nothing(s: MicRecordingState, segment_id: String, capture: MicCapture)
    ensures
        mic_start_outcome(s, segment_id, capture, false) == (s, Err::<(), Seq<char>>("No microphone device available"@)),
{
}

/// After one stop, a second stop is refused: the segment is forgotten.
pub proof fn law_mic_second_stop_refused(s: MicRecordingState)
    ensures
        mic_stop_outcome(mic_stop_outcome(s).0).1 == Err::<(Seq<char>, Seq<char>, Seq<char>, bool), Seq<char>>(
            "No segment ID for recording"@),
{
}

} // verus!
