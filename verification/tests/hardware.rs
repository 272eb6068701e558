use llamachat::hardware::{amd_gpus, apple_silicon, find_first_string, gpu_cores, is_intel_vendor, is_render_card, nvidia_cuda_version, nvidia_gpus, Json};

#[test]
fn nvidia_rows_become_gpus() {
    let out = "NVIDIA GeForce RTX 4090, 24564, 23000, 550.54, 8.9\n, 1, 2\nRTX Test,  , x, ,";
    let gpus = nvidia_gpus(out, Some("12.4".into()));
    assert_eq!(gpus.len(), 2);
    assert_eq!(gpus[0].model, "NVIDIA GeForce RTX 4090");
    assert_eq!(gpus[0].vram_total_mb, Some(24564));
    assert_eq!(gpus[0].vram_free_mb, Some(23000));
    assert_eq!(gpus[0].driver_version.as_deref(), Some("550.54"));
    assert_eq!(gpus[0].compute_capability.as_deref(), Some("8.9"));
    assert_eq!(gpus[0].cuda_version.as_deref(), Some("12.4"));
    assert_eq!(gpus[0].backend, "cuda");
    assert_eq!(gpus[1].model, "RTX Test");
    assert_eq!(gpus[1].vram_total_mb, None);
    assert_eq!(gpus[1].vram_free_mb, None);
    assert_eq!(gpus[1].driver_version, None);
}

#[test]
fn the_cuda_banner_and_core_count_are_read() {
    let banner = "| NVIDIA-SMI 550.54   Driver Version: 550.54   CUDA Version: 12.4     |";
    assert_eq!(nvidia_cuda_version(banner).as_deref(), Some("12.4"));
    assert_eq!(nvidia_cuda_version("CUDA Version: n/a"), None);
    assert_eq!(nvidia_cuda_version("nothing"), None);
    let prof = "Graphics/Displays:\n    Apple M2 Pro:\n      Total Number of Cores: 19\n";
    assert_eq!(gpu_cores(prof), Some(19));
    assert_eq!(gpu_cores("no cores here"), None);
    let a = apple_silicon(None, Some(prof.into()));
    assert_eq!(a.chip, "Apple Silicon");
    assert_eq!(a.gpu_cores, Some(19));
    assert!(a.unified_memory && a.neural_engine);
}

#[test]
fn intel_cards_are_recognised() {
    assert!(is_render_card("card0"));
    assert!(!is_render_card("card0-HDMI-A-1"));
    assert!(!is_render_card("renderD128"));
    assert!(is_intel_vendor(" 0X8086\n"));
    assert!(!is_intel_vendor("0x10de"));
}

fn obj(members: Vec<(&str, Json)>) -> Json {
    Json::Obj(members.into_iter().map(|(k, v)| (k.to_string(), v)).collect())
}

fn text(s: &str) -> Json {
    Json::Str(s.to_string())
}

#[test]
fn first_string_is_found_by_key_fragment_ignoring_case() {
    let v = obj(vec![
        ("card0", obj(vec![("Card series", text("Radeon RX 7900 XTX")), ("GPU use (%)", Json::Other)])),
    ]);
    assert_eq!(find_first_string(&v, "CARD SERIES"), Some("Radeon RX 7900 XTX".to_string()));
    assert_eq!(find_first_string(&v, "driver"), None);
    assert_eq!(find_first_string(&text("x"), "x"), None);
}

#[test]
fn a_matching_key_without_a_string_is_searched_inside() {
    let v = obj(vec![("Driver version", obj(vec![("driver version (full)", text("6.3.6"))]))]);
    assert_eq!(find_first_string(&v, "Driver version"), Some("6.3.6".to_string()));
}

#[test]
fn amd_cards_are_read_and_the_system_entry_skipped() {
    let v = obj(vec![
        (
            "card0",
            obj(vec![
                ("Card model", text("0x744c")),
                ("Card series", text("Navi 31")),
                ("VRAM Total Memory (B)", text("25753026560")),
                ("VRAM Total Used Memory (B)", text("1073741824")),
            ]),
        ),
        ("card1", obj(vec![("Card SKU", text("D7070100")), ("VRAM Total Memory (B)", text("n/a"))])),
        ("card2", obj(vec![])),
        ("system", obj(vec![("Driver version", text("6.3.6"))])),
    ]);
    let gpus = amd_gpus(&v, Some("6.3.6".to_string()));
    assert_eq!(gpus.len(), 3);
    assert_eq!(gpus[0].vendor, "AMD");
    assert_eq!(gpus[0].model, "Navi 31");
    assert_eq!(gpus[0].vram_total_mb, Some(24560));
    assert_eq!(gpus[0].vram_free_mb, Some(23536));
    assert_eq!(gpus[0].driver_version.as_deref(), Some("6.3.6"));
    assert_eq!(gpus[0].backend, "rocm");
    assert!(!gpus[0].is_integrated);
    assert_eq!(gpus[1].model, "D7070100");
    assert_eq!(gpus[1].vram_total_mb, None);
    assert_eq!(gpus[1].vram_free_mb, None);
    assert_eq!(gpus[2].model, "AMD GPU");
    assert!(amd_gpus(&text("not an object"), None).is_empty());
}
