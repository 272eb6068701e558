use llamachat::ollama::{resolve_model, tags_from_response, wellknown_bins};

fn tags(v: &[&str]) -> Vec<String> {
    v.iter().map(|s| s.to_string()).collect()
}

#[test]
fn an_installed_tag_resolves_to_itself() {
    let ins = tags(&["qwen2.5:7b", "llama3.1:8b"]);
    assert_eq!(resolve_model("llama3.1:8b", &ins), Some("llama3.1:8b".to_string()));
}

#[test]
fn the_shortest_tag_of_the_same_size_wins() {
    let ins = tags(&["qwen2.5:32b", "qwen2.5:7b-instruct-q8_0-something", "qwen2.5:7b-instruct-q8_0", "llama3.1:8b"]);
    assert_eq!(resolve_model("qwen2.5:7b", &ins), Some("qwen2.5:7b-instruct-q8_0".to_string()));
}

#[test]
fn without_the_size_any_tag_of_the_family_is_taken() {
    let ins = tags(&["qwen2.5:32b", "qwen2.5:14b"]);
    assert_eq!(resolve_model("qwen2.5:7b", &ins), Some("qwen2.5:32b".to_string()));
    assert_eq!(resolve_model("mistral:7b", &ins), None);
}

#[test]
fn installed_tags_are_read_from_the_model_list() {
    let body = r#"{"models":[{"name":"llama3.1:8b","size":1},{"size":2},{"name":"qwen2.5:7b"}]}"#;
    assert_eq!(tags_from_response(body), tags(&["llama3.1:8b", "qwen2.5:7b"]));
    assert!(tags_from_response("not json").is_empty());
}

#[test]
fn well_known_install_places_are_probed() {
    assert_eq!(wellknown_bins().len(), 4);
    assert_eq!(wellknown_bins()[2], "/usr/bin/ollama");
}
