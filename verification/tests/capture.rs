use videdit::capture::{decode_int_samples, default_capture_device, wav_bits_per_sample, RecordingStartedPayload, SampleKind};
use videdit::paths::escape_path_for_filter;

#[test]
fn default_device_has_fallback_name() {
    let d = default_capture_device(None, None);
    assert_eq!((d.id.as_str(), d.name.as_str(), d.is_default), ("", "Default Microphone", true));
    let d = default_capture_device(Some("{id}".into()), Some("USB Mic".into()));
    assert_eq!((d.id.as_str(), d.name.as_str()), ("{id}", "USB Mic"));
    let p = RecordingStartedPayload { has_audio: true, audio_device: d.name.clone().into() };
    assert!(p.has_audio && p.audio_device.as_deref() == Some("USB Mic"));
}

#[test]
fn wav_bits_follow_the_capture_format() {
    assert_eq!(wav_bits_per_sample(SampleKind::Float, 8, 2), 32);
    assert_eq!(wav_bits_per_sample(SampleKind::Int, 4, 2), 16);
    assert_eq!(wav_bits_per_sample(SampleKind::Int, 6, 2), 24);
    assert_eq!(wav_bits_per_sample(SampleKind::Int, 8192, 1), 0);
}

#[test]
fn integer_samples_are_little_endian_twos_complement() {
    assert_eq!(decode_int_samples(&[0x01, 0x00, 0xff, 0xff, 0x00, 0x80, 0x7f], 16), vec![1, -1, -32768]);
    assert_eq!(decode_int_samples(&[0xff, 0xff, 0x7f, 0x00, 0x00, 0x80], 24), vec![8_388_607, -8_388_608]);
    assert_eq!(decode_int_samples(&[0x00, 0x00, 0x00, 0x80, 0x01, 0x02, 0x03, 0x04], 32), vec![i32::MIN, 0x04030201]);
    assert_eq!(decode_int_samples(&[1, 2, 3], 8), Vec::<i32>::new());
}

#[test]
fn filter_paths_are_escaped() {
    assert_eq!(escape_path_for_filter("C:\\Users\\me\\clip[1].srt"), "C\\:/Users/me/clip\\[1\\].srt");
    assert_eq!(escape_path_for_filter("/tmp/it's;x.srt"), "/tmp/it\\'s\\;x.srt");
    assert_eq!(escape_path_for_filter("a"), "a");
    assert_eq!(escape_path_for_filter(""), "");
    assert_eq!(escape_path_for_filter("é:x"), "é:x");
}
