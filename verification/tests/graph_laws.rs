use videdit::export::{build_export_filter_cmd, AudioTrack};
use videdit::vhs::{build_vhs_filter_chain, VhsColorProfile};

fn dub(radio_effect: bool) -> AudioTrack {
    AudioTrack {
        id: "d".into(),
        segment_id: "s".into(),
        segment_start: 0,
        segment_end: 2000,
        file_path: "dub.wav".into(),
        audio_source_start: 0,
        audio_source_end: 1500,
        volume: 1.0f64.to_bits(),
        radio_effect,
        radio_intensity: 40,
    }
}

fn graph(tracks: &[&AudioTrack], original_radio: bool, has_audio: bool, srt: Option<&str>, vhs: bool) -> Vec<String> {
    let mut args = Vec::new();
    build_export_filter_cmd(
        &mut args, tracks, original_radio, 60, 0, 2000, srt, false, 23, false, has_audio, vhs, 40, false,
        "preserved",
    );
    args
}

#[test]
fn without_input_audio_the_graph_never_reads_it() {
    let a = dub(false);
    let b = dub(true);
    for tracks in [vec![], vec![&a], vec![&a, &b], vec![&b]] {
        for original_radio in [false, true] {
            let args = graph(&tracks, original_radio, false, Some("C:\\clips\\[0:a].srt"), true);
            assert!(!args[1].contains("[0:a]"), "{}", args[1]);
            assert_eq!(args, graph(&tracks, false, false, Some("C:\\clips\\[0:a].srt"), true));
        }
    }
    assert!(graph(&[&a], false, true, None, false)[1].contains("[0:a]"));
}

#[test]
fn vhs_labels_stand_only_at_the_ends() {
    for scanlines in [false, true] {
        let middle = build_vhs_filter_chain("", "", 100, scanlines, VhsColorProfile::Faded);
        let chain = build_vhs_filter_chain("[in]", "[out]", 250, scanlines, VhsColorProfile::Faded);
        assert_eq!(chain, format!("[in]{middle}[out]"));
        assert!(middle.starts_with("scale=trunc(ih*4/3/2)*2:trunc(ih/2)*2,setsar=1,"));
        assert!(middle.ends_with("format=yuv420p"));
    }
}

#[test]
fn vhs_look_stages_follow_scanlines() {
    for i in [0u32, 40, 100] {
        let scan = build_vhs_filter_chain("[0:v]", "[vout]", i, true, VhsColorProfile::Faded);
        let soft = build_vhs_filter_chain("[0:v]", "[vout]", i, false, VhsColorProfile::Faded);
        assert!(scan.contains("drawgrid=") && scan.contains("tblend=") && !scan.contains("lagfun=decay="));
        assert!(!soft.contains("drawgrid=") && !soft.contains("tblend=") && soft.contains("lagfun=decay="));
        assert_eq!(scan, build_vhs_filter_chain("[0:v]", "[vout]", i, true, VhsColorProfile::Preserved));
    }
}
