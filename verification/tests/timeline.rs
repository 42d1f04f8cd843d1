use videdit::timeline::{
    clip_subtitles, format_time_srt, is_blank_text, remap_subtitles_for_merge, sort_subtitles_by_start,
    srt_content, subtitle_documents_for_export, validate_subtitles, Segment, Subtitle,
};

fn sub(start: i64, end: i64, text: &str) -> Subtitle {
    Subtitle { start, end, text: text.to_string() }
}

fn triple(s: &Subtitle) -> (i64, i64, String) {
    (s.start, s.end, s.text.clone())
}

#[test]
fn srt_time_shows_hours_minutes_seconds_and_millis() {
    assert_eq!(format_time_srt(3_723_004), "01:02:03,004");
    assert_eq!(format_time_srt(0), "00:00:00,000");
    assert_eq!(format_time_srt(59_999), "00:00:59,999");
    assert_eq!(format_time_srt(360_000_000), "100:00:00,000");
}

#[test]
fn srt_time_of_negative_time_is_zero() {
    assert_eq!(format_time_srt(-1500), "00:00:00,000");
}

#[test]
fn srt_content_numbers_entries_from_one() {
    let subs = vec![sub(0, 1500, "Hello"), sub(61_000, 62_250, "World")];
    assert_eq!(
        srt_content(&subs),
        "1\n00:00:00,000 --> 00:00:01,500\nHello\n\n2\n00:01:01,000 --> 00:01:02,250\nWorld\n\n"
    );
    assert_eq!(srt_content(&[]), "");
}

#[test]
fn clipping_keeps_overlapping_parts_relative_to_segment_start() {
    let subs = vec![sub(500, 1500, "a"), sub(2500, 4000, "b"), sub(5000, 6000, "c")];
    let clipped: Vec<_> = clip_subtitles(&subs, 1000, 3000, 0).iter().map(triple).collect();
    assert_eq!(clipped, vec![(0, 500, "a".to_string()), (1500, 2000, "b".to_string())]);
}

#[test]
fn clipping_moves_subtitles_by_offset() {
    let subs = vec![sub(500, 1500, "a")];
    let clipped: Vec<_> = clip_subtitles(&subs, 1000, 3000, 10_000).iter().map(triple).collect();
    assert_eq!(clipped, vec![(10_000, 10_500, "a".to_string())]);
}

#[test]
fn clipped_subtitles_stay_inside_their_segment() {
    let subs = vec![sub(0, 10_000, "long"), sub(2999, 3001, "edge"), sub(3000, 3500, "after")];
    let clipped = clip_subtitles(&subs, 1000, 3000, 250);
    assert_eq!(clipped.len(), 2);
    for c in &clipped {
        assert!(250 <= c.start && c.start < c.end && c.end <= 250 + 2000);
    }
}

#[test]
fn merged_export_places_subtitles_on_joined_timeline_sorted_by_start() {
    let segments = vec![
        Segment { id: "s1".into(), start: 1000, end: 3000 },
        Segment { id: "s2".into(), start: 0, end: 1000 },
    ];
    let subs = vec![sub(500, 1500, "a"), sub(200, 700, "b")];
    let merged: Vec<_> = remap_subtitles_for_merge(&subs, &segments).iter().map(triple).collect();
    assert_eq!(
        merged,
        vec![(0, 500, "a".to_string()), (2200, 2700, "b".to_string()), (2500, 3000, "a".to_string())]
    );
}

#[test]
fn sorting_by_start_keeps_order_of_equal_starts() {
    let subs = vec![sub(300, 400, "x"), sub(100, 200, "first"), sub(100, 150, "second"), sub(0, 50, "y")];
    let sorted: Vec<_> = sort_subtitles_by_start(subs).iter().map(|s| s.text.clone()).collect();
    assert_eq!(sorted, vec!["y", "first", "second", "x"]);
}

#[test]
fn validation_rejects_negative_start() {
    let subs = vec![sub(-1500, 1000, "hi")];
    assert_eq!(validate_subtitles(&subs), Err("Subtitle 0: start (-1.5) must be non-negative".to_string()));
}

#[test]
fn validation_rejects_end_not_after_start() {
    let subs = vec![sub(0, 1000, "ok"), sub(2000, 2000, "hi")];
    assert_eq!(
        validate_subtitles(&subs),
        Err("Subtitle 1: end (2) must be greater than start (2)".to_string())
    );
    let subs = vec![sub(1250, 7, "hi")];
    assert_eq!(
        validate_subtitles(&subs),
        Err("Subtitle 0: end (0.007) must be greater than start (1.25)".to_string())
    );
}

#[test]
fn validation_rejects_blank_text() {
    let subs = vec![sub(0, 1000, " \t\u{3000}")];
    assert_eq!(validate_subtitles(&subs), Err("Subtitle 0: text must not be empty".to_string()));
}

#[test]
fn validation_accepts_well_formed_subtitles() {
    let subs = vec![sub(0, 1000, "a"), sub(500, 800, " b ")];
    assert_eq!(validate_subtitles(&subs), Ok(()));
    assert!(is_blank_text(""));
    assert!(!is_blank_text(" x "));
}

#[test]
fn side_subtitle_documents_follow_segments_and_merge() {
    let subs = vec![sub(500, 1500, "a"), sub(2500, 4000, "b")];
    assert_eq!(
        subtitle_documents_for_export(&subs, &[], false),
        vec!["1\n00:00:00,500 --> 00:00:01,500\na\n\n2\n00:00:02,500 --> 00:00:04,000\nb\n\n".to_string()]
    );
    let segments = vec![
        Segment { id: "s1".into(), start: 1000, end: 3000 },
        Segment { id: "s2".into(), start: 3000, end: 5000 },
    ];
    assert_eq!(
        subtitle_documents_for_export(&subs, &segments, true),
        vec!["1\n00:00:00,000 --> 00:00:00,500\na\n\n2\n00:00:01,500 --> 00:00:02,000\nb\n\n3\n00:00:02,000 --> 00:00:03,000\nb\n\n".to_string()]
    );
    assert_eq!(
        subtitle_documents_for_export(&subs, &segments, false),
        vec![
            "1\n00:00:00,000 --> 00:00:00,500\na\n\n2\n00:00:01,500 --> 00:00:02,000\nb\n\n".to_string(),
            "1\n00:00:00,000 --> 00:00:01,000\nb\n\n".to_string(),
        ]
    );
}
