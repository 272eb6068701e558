use llamachat::settings::{default_perception, slug, AppSettings};

#[test]
fn slugs_are_prefixed_lowercase_and_dashed() {
    assert_eq!(slug("My Model!"), "custom-my-model");
    assert_eq!(slug("  Qwen 2.5 -- 7B  "), "custom-qwen-2-5-7b");
    assert_eq!(slug("ÀB"), "custom-b");
}

#[test]
fn empty_names_get_a_placeholder_slug() {
    assert_eq!(slug(""), "custom-model");
    assert_eq!(slug("--"), "custom-model");
    assert_eq!(slug("!!!"), "custom-model");
}

#[test]
fn default_settings_are_private_and_balanced() {
    let s = AppSettings::default();
    assert_eq!(s.benchmark_intensity, "balanced");
    assert_eq!(s.perception, default_perception());
    assert_eq!(s.perception, "accessibility");
    assert!(s.telemetry_off);
    assert!(s.model_override.is_none() && s.memory_dir.is_none() && s.vision_model.is_none());
}
