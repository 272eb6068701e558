use llamachat::bench::{bench_depths, bench_steps, is_installed, BenchStep};

#[test]
fn settings_pick_their_depths() {
    assert_eq!(bench_depths("quick"), vec!["quick"]);
    assert_eq!(bench_depths("standard"), vec!["balanced"]);
    assert_eq!(bench_depths("balanced"), vec!["balanced"]);
    assert_eq!(bench_depths("all"), vec!["quick", "balanced", "full"]);
    assert_eq!(bench_depths("max"), vec!["full"]);
}

#[test]
fn installed_means_a_name_starting_with_the_tag() {
    let installed = vec!["llama3.2:3b".to_string(), "qwen2.5:7b-instruct".to_string()];
    assert!(is_installed(&installed, "llama3.2:3b"));
    assert!(is_installed(&installed, "qwen2.5:7b"));
    assert!(!is_installed(&installed, "gemma3:4b"));
    assert!(!is_installed(&vec![], "x"));
}

#[test]
fn missing_models_are_offered_and_progress_counts_every_cell() {
    let tags = vec!["llama3.2:3b".to_string(), "gemma3:4b".to_string()];
    let installed = vec!["llama3.2:3b".to_string()];
    let steps = bench_steps(&tags, &installed, 3);
    assert_eq!(
        steps,
        vec![
            BenchStep::Measure { target: 0, depth: 0, pct: 10 },
            BenchStep::Measure { target: 0, depth: 1, pct: 23 },
            BenchStep::Measure { target: 0, depth: 2, pct: 36 },
            BenchStep::NeedsDownload { target: 1, pct: 50 },
        ]
    );
    assert!(bench_steps(&vec![], &installed, 3).is_empty());
}
