use llamachat::memory::{conversations_dir, memory_path};
use llamachat::settings::{custom_models_path, settings_path};

#[test]
fn settings_files_live_in_the_data_dir() {
    assert_eq!(settings_path("/data/fitllm"), "/data/fitllm/settings.json");
    assert_eq!(custom_models_path("/data/fitllm"), "/data/fitllm/custom_models.json");
}

#[test]
fn memory_files_follow_the_override() {
    assert_eq!(conversations_dir(&None, "/data/fitllm"), "/data/fitllm/conversations");
    assert_eq!(memory_path(&None, "/data/fitllm"), "/data/fitllm/memory.md");
    assert_eq!(memory_path(&Some("  /notes  ".to_string()), "/data/fitllm"), "/notes/memory.md");
    assert_eq!(conversations_dir(&Some("   ".to_string()), "/data/fitllm"), "/data/fitllm/conversations");
}
