use videdit::radio::push_radio_effect_filters;
use videdit::vhs::{build_vhs_filter_chain, VhsColorProfile};

fn radio_chain(intensity: u32) -> String {
    let mut filters = Vec::new();
    push_radio_effect_filters(&mut filters, "[0:a]", 2000, intensity, "eq", "noise", "crackle", "out");
    filters.join(";")
}

#[test]
fn radio_values_print_as_their_float_evaluation_at_every_intensity() {
    for i in 0..=100u32 {
        let t = i as f64 / 100.0;
        let chain = radio_chain(i);
        assert!(chain.contains(&format!("volume='1-{:.3}*", 0.108 + t * 0.207)), "fade at {i}");
        assert!(chain.contains(&format!("a={:.4},", 0.015 + t * 0.020)), "noise at {i}");
        assert!(chain.contains(&format!("random(0),{:.6}),", 0.000041 + t * 0.000118)), "crackle chance at {i}");
        assert!(chain.contains(&format!("),{:.4}*(2", 0.600 + t * 0.220)), "crackle amplitude at {i}");
        assert!(chain.contains(&format!("highpass=f={:.0},lowpass=f={:.0}", 200.0 + t * 150.0, 4500.0 - t * 1700.0)), "band at {i}");
    }
    assert!(radio_chain(25).contains("random(0),0.000071)"));
    assert!(radio_chain(50).contains("volume='1-0.211*"));
}

#[test]
fn vhs_values_print_as_their_float_evaluation_at_every_intensity() {
    for i in 0..=100u32 {
        let t = i as f64 / 100.0;
        let blur = 0.35 + t * 1.10;
        let ghost = 0.10 + t * 0.22;
        let tracking = 0.05 + t * 0.13;
        let scan = build_vhs_filter_chain("[0:v]", "[vout]", i, true, VhsColorProfile::Faded);
        assert!(scan.contains(&format!("luma_radius={:.2}:luma_power=1:chroma_radius={:.2}:", blur, blur + 0.40)), "blur at {i}");
        assert!(scan.contains(&format!("all_opacity={:.2},", ghost)), "ghost at {i}");
        assert!(scan.contains(&format!(":brightness={:.3}:", -0.010 - t * 0.025)), "brightness at {i}");
        assert!(scan.contains(&format!(":c=black@{:.2}:", tracking * 0.70)), "second band at {i}");

        let faded = build_vhs_filter_chain("[0:v]", "[vout]", i, false, VhsColorProfile::Faded);
        assert!(faded.contains(&format!("luma_radius={:.2}:luma_power=1:chroma_radius={:.2}:", blur + 1.00, blur + 1.45)), "soft blur at {i}");
        assert!(faded.contains(&format!("lagfun=decay={:.2},", 0.88 + ghost * 0.20)), "lag at {i}");
        assert!(faded.contains(&format!(":brightness={:.3}:", 0.018 + tracking * 0.04)), "faded brightness at {i}");
        assert!(faded.contains(&format!(":brightness={:.3}:", 0.010 + tracking * 0.03)), "faded post brightness at {i}");

        let kept = build_vhs_filter_chain("[0:v]", "[vout]", i, false, VhsColorProfile::Preserved);
        assert!(kept.contains(&format!(":brightness={:.3}:", 0.012 + tracking * 0.025)), "preserved brightness at {i}");
        assert!(kept.contains(&format!(":brightness={:.3}:", 0.006 + tracking * 0.015)), "preserved post brightness at {i}");
    }
    assert!(build_vhs_filter_chain("[0:v]", "[vout]", 0, true, VhsColorProfile::Faded).contains(":c=black@0.03:"));
    assert!(build_vhs_filter_chain("[0:v]", "[vout]", 2, true, VhsColorProfile::Faded).contains(":brightness=-0.011:"));
}
