use llamachat::recommend::{benchmark_matches, best_benchmark, build_why, choose_quant, compute_fit, smallest_quant, context_comfortable, exec_path, find_quant, headroom_mb, pick_quant, where_word, BenchRow, ExecPath, MachineMemory, QuantPick};
use llamachat::types::{AppleSilicon, Gpu, Memory, Tier};

fn gpu(vram: Option<u64>, integrated: bool) -> Gpu {
    Gpu {
        vendor: "NVIDIA".into(),
        model: "RTX Test".into(),
        vram_total_mb: vram,
        vram_free_mb: vram,
        driver_version: None,
        cuda_version: None,
        compute_capability: None,
        backend: "cuda".into(),
        is_integrated: integrated,
    }
}

#[test]
fn machine_memory_pools() {
    let mem = Memory { total_mb: 64_000, available_mb: 48_000 };
    let apple = Some(AppleSilicon { unified_memory: true, gpu_cores: Some(30), neural_engine: true, chip: "M3 Max".into() });
    let m = MachineMemory::from_profile(&apple, &mem, &vec![]);
    assert_eq!(m, MachineMemory { gpu_mb: 64_000, ram_mb: 64_000, unified: true, has_gpu: true });
    let m = MachineMemory::from_profile(&None, &mem, &vec![gpu(Some(24_000), false), gpu(Some(8_000), false), gpu(None, true)]);
    assert_eq!(m, MachineMemory { gpu_mb: 32_000, ram_mb: 64_000, unified: false, has_gpu: true });
    let m = MachineMemory::from_profile(&None, &Memory { total_mb: 0, available_mb: 12_000 }, &vec![gpu(Some(0), false)]);
    assert_eq!(m, MachineMemory { gpu_mb: 0, ram_mb: 12_000, unified: false, has_gpu: false });
}

#[test]
fn fits_and_paths() {
    let m = MachineMemory { gpu_mb: 8_000, ram_mb: 32_000, unified: false, has_gpu: true };
    let small = compute_fit(4_000, &m);
    assert!(small.fits_gpu && small.fits_ram && !small.offload);
    assert_eq!(exec_path(&small, &m), ExecPath::Gpu);
    assert_eq!(headroom_mb(ExecPath::Gpu, &m, 4_000), 4_000);
    let mid = compute_fit(20_000, &m);
    assert!(!mid.fits_gpu && mid.offload);
    assert_eq!(exec_path(&mid, &m), ExecPath::Offload);
    assert_eq!(headroom_mb(ExecPath::Offload, &m, 20_000), 12_000);
    let huge = compute_fit(90_000, &m);
    assert!(!huge.fits_ram && !huge.offload);
    assert_eq!(exec_path(&huge, &m), ExecPath::Cpu);
    assert_eq!(headroom_mb(ExecPath::Cpu, &m, 90_000), 0);
    assert_eq!(where_word(ExecPath::Gpu, true), "unified memory");
}

#[test]
fn benchmarks_and_quants_match_loosely() {
    let quants = vec!["Q4_K_M".to_string(), "Q8_0".to_string()];
    assert_eq!(find_quant(&quants, "q8_0"), Some(1));
    assert_eq!(find_quant(&quants, "fp16"), None);
    let tags = vec![Some("llama3.1:8b-q8".to_string()), None];
    assert!(benchmark_matches("llama3.1-8b", "llama3.1:8b", &None, &tags, "LLAMA3.1:8B"));
    assert!(benchmark_matches("llama3.1-8b", "llama3.1:8b", &None, &tags, "llama3.1:8b-q8"));
    assert!(benchmark_matches("x", "llama3.1:8b", &None, &vec![], "Llama3.1:70b"));
    assert!(!benchmark_matches("x", "qwen:7b", &Some("qwen:7b-q4".into()), &vec![], "llama3.1:8b"));
    assert!(!benchmark_matches("x", ":7b", &None, &vec![], "anything"));
}

fn cpu_box(ram: u64) -> MachineMemory {
    MachineMemory { gpu_mb: 0, ram_mb: ram, unified: false, has_gpu: false }
}

#[test]
fn quant_pick_prefers_q8_then_q4() {
    let m = cpu_box(16_000);
    assert_eq!(pick_quant(Some(9_000), Some(5_000), &m), QuantPick::Q8);
    assert_eq!(pick_quant(Some(20_000), Some(5_000), &m), QuantPick::Q4);
    assert_eq!(pick_quant(Some(20_000), Some(17_000), &m), QuantPick::Smallest);
    assert_eq!(pick_quant(None, None, &m), QuantPick::Smallest);
    assert_eq!(pick_quant(None, Some(16_000), &m), QuantPick::Q4);
}

#[test]
fn comfortable_context_follows_headroom() {
    assert_eq!(context_comfortable(false, 10_000, 20_000, 8192, 131_072), 2048);
    assert_eq!(context_comfortable(false, 10_000, 20_000, 1024, 131_072), 1024);
    assert_eq!(context_comfortable(true, 10_000, 7_000, 8192, 131_072), 131_072);
    // exactly 20% headroom is not over 20%
    assert_eq!(context_comfortable(true, 10_000, 8_000, 8192, 131_072), 8192);
    assert_eq!(context_comfortable(true, 10_000, 9_000, 8192, 131_072), 8192);
    assert_eq!(context_comfortable(true, 10_000, 9_600, 8192, 131_072), 4096);
    assert_eq!(context_comfortable(true, 0, 0, 2048, 131_072), 2048);
}

fn bench(model: &str, ok: bool, has_gen: bool, ts: &str) -> BenchRow {
    BenchRow { model: model.to_string(), ok, has_gen, timestamp: ts.to_string() }
}

#[test]
fn latest_counting_benchmark_wins() {
    let runs = vec![
        bench("llama3.1:8b", true, true, "2026-07-09T01:00:00Z"),
        bench("llama3.1:8b", true, true, "2026-07-09T04:00:00Z"),
        bench("llama3.1:8b", false, true, "2026-07-10T00:00:00Z"),
        bench("llama3.1:8b", true, false, "2026-07-11T00:00:00Z"),
        bench("LLAMA3.1-8B", true, true, "2026-07-09T04:00:00Z"),
        bench("qwen2.5:7b", true, true, "2026-07-12T00:00:00Z"),
    ];
    let tags = vec![Some("llama3.1:8b-q4".to_string())];
    let r = best_benchmark("llama3.1-8b", "llama3.1:8b", &None, &tags, &runs);
    assert_eq!(r, Some(4));
    let none = best_benchmark("phi3", "phi3:mini", &None, &vec![], &runs);
    assert_eq!(none, None);
}

#[test]
fn why_lines_read_as_before() {
    let small = cpu_box(16_000);
    let fit = compute_fit(20_000, &small);
    let w = build_why(Tier::WontRun, false, 0, ExecPath::Cpu, &fit, 2048, "Q4_K_M", &small, 0);
    assert_eq!(w, "Won't run: needs ~19.5GB but only 15.6GB available even at the smallest quant.");

    let big = MachineMemory { gpu_mb: 24_000, ram_mb: 32_000, unified: false, has_gpu: true };
    let fit = compute_fit(8_000, &big);
    let w = build_why(Tier::Great, false, 452, ExecPath::Gpu, &fit, 8192, "Q8_0", &big, 100);
    assert_eq!(w, "Runs great: ~45.2 tok/s on GPU (Q8_0), 15.6GB headroom, 8k context comfortable.");

    let split = MachineMemory { gpu_mb: 8_000, ram_mb: 32_000, unified: false, has_gpu: true };
    let fit = compute_fit(12_000, &split);
    let w = build_why(Tier::Okay, true, 120, ExecPath::Offload, &fit, 4096, "Q4_K_M", &split, 67);
    assert_eq!(
        w,
        "Runs okay: measured 12 tok/s on GPU + CPU offload (Q4_K_M), 19.5GB headroom, 4k context comfortable. ~67% of layers on GPU."
    );
}

#[test]
fn smallest_quant_is_the_first_of_least_size() {
    assert_eq!(smallest_quant(&vec![]), None);
    assert_eq!(smallest_quant(&vec![7]), Some(0));
    assert_eq!(smallest_quant(&vec![9, 4, 6, 4]), Some(1));
    assert_eq!(smallest_quant(&vec![3, 5, 3]), Some(0));
}

#[test]
fn the_rated_quant_falls_back_to_the_smallest() {
    let names: Vec<String> = vec!["F16".into(), "q8_0".into(), "Q4_K_M".into(), "Q2_K".into()];
    let sizes = vec![16_000, 8_000, 5_000, 3_000];
    let fps = vec![17_600, 8_800, 5_500, 3_300];
    let q8 = find_quant(&names, "Q8_0");
    let q4 = find_quant(&names, "Q4_K_M");
    assert_eq!((q8, q4), (Some(1), Some(2)));
    let mem = |ram: u64| MachineMemory { gpu_mb: 0, ram_mb: ram, unified: false, has_gpu: false };
    assert_eq!(choose_quant(q8, q4, &sizes, &fps, &mem(16_000)), 1);
    assert_eq!(choose_quant(q8, q4, &sizes, &fps, &mem(6_000)), 2);
    assert_eq!(choose_quant(q8, q4, &sizes, &fps, &mem(4_000)), 3);
    assert_eq!(choose_quant(None, None, &vec![5, 2, 2], &vec![6, 3, 3], &mem(1)), 1);
}
