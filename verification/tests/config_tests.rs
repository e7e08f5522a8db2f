use lama_blanket::config::{
    compute, compute_in_range, estimate_in_range, estimate_kv_cache, estimate_resources,
    LaunchConfig,
};
use lama_blanket::gguf::GgufInfo;
use lama_blanket::hwdetect::{GpuInfo, HardwareInfo};

fn make_info() -> GgufInfo {
    GgufInfo {
        architecture: "llama".into(),
        block_count: 40,
        context_length: 8192,
        embedding_length: 4096,
        head_count: 32,
        head_count_kv: 8,
        file_type: 15,
        file_size: 6_500_000_000,
        model_name: "Test Model".into(),
    }
}

fn make_hw(vram_mb: u64, ram_avail_mb: u64) -> HardwareInfo {
    HardwareInfo {
        cpu_name: "Test CPU".into(),
        physical_cores: 16,
        logical_cores: 32,
        total_ram_mb: ram_avail_mb + 4096,
        available_ram_mb: ram_avail_mb,
        gpus: vec![GpuInfo {
            name: "NVIDIA RTX 4070 Ti".into(),
            vram_mb,
        }],
        has_nvidia: true,
    }
}

#[test]
fn test_full_gpu_offload() {
    let info = make_info();
    let hw = make_hw(12 * 1024, 24 * 1024);
    let config = compute(&info, &hw, None);

    assert_eq!(config.gpu_layers, 40);
    assert_eq!(config.ctx_size, 8192);
    assert_eq!(config.threads, 16);
    assert_eq!(config.flash_attn, "auto");
    assert_eq!(config.cache_type_k, "q8_0");
}

#[test]
fn test_cpu_only() {
    let info = make_info();
    let hw = make_hw(0, 24 * 1024);
    let config = compute(&info, &hw, None);

    assert_eq!(config.gpu_layers, 0);
    assert_eq!(config.threads, 16);
    assert_eq!(config.flash_attn, "off");
}

#[test]
fn test_overrides() {
    let info = make_info();
    let hw = make_hw(12 * 1024, 24 * 1024);
    let overrides = LaunchConfig {
        ctx_size: 4096,
        threads: 8,
        gpu_layers: 20,
        flash_attn: "off".into(),
        ..Default::default()
    };
    let config = compute(&info, &hw, Some(&overrides));

    assert_eq!(config.ctx_size, 4096);
    assert_eq!(config.threads, 8);
    assert_eq!(config.gpu_layers, 20);
    assert_eq!(config.flash_attn, "off");
}

#[test]
fn test_resource_estimate() {
    let info = make_info();
    let config = compute(&info, &make_hw(12 * 1024, 24 * 1024), None);
    let est = estimate_resources(&info, &config, &make_hw(12 * 1024, 24 * 1024));

    assert_eq!(est.gpu_layers, 40);
    assert!(est.total_vram_mb > 0);
    assert!(est.total_vram_mb < 12 * 1024);
    assert!(est.fits_vram);
}

#[test]
fn test_to_args() {
    let config = LaunchConfig {
        model_path: "test.gguf".into(),
        mmproj_path: "test-mmproj.gguf".into(),
        host: "0.0.0.0".into(),
        port: 9090,
        ctx_size: 4096,
        gpu_layers: 40,
        threads: 8,
        threads_batch: 16,
        batch_size: 2048,
        ubatch_size: 512,
        flash_attn: "auto".into(),
        cache_type_k: "q8_0".into(),
        cache_type_v: "q8_0".into(),
        mlock: true,
        split_mode: String::new(),
    };

    let args = config.to_args();
    assert!(args.contains(&"-m".to_string()));
    assert!(args.contains(&"test.gguf".to_string()));
    assert!(args.contains(&"--port".to_string()));
    assert!(args.contains(&"9090".to_string()));
    assert!(args.contains(&"--mlock".to_string()));
    assert!(args.contains(&"-ctk".to_string()));
    assert!(args.contains(&"q8_0".to_string()));
}

#[test]
fn test_kv_cache_estimation() {
    let info = make_info();
    let kv = estimate_kv_cache(8192, &info, "q8_0");
    assert!(kv > 100);
    assert!(kv < 2000);

    let kv_f16 = estimate_kv_cache(8192, &info, "f16");
    assert!(kv_f16 > kv);
}

#[test]
fn to_args_lists_every_flag_in_order() {
    let config = LaunchConfig {
        model_path: "m.gguf".into(),
        mmproj_path: "p.gguf".into(),
        host: "0.0.0.0".into(),
        port: 9090,
        ctx_size: 4096,
        gpu_layers: 40,
        threads: 8,
        threads_batch: 16,
        batch_size: 2048,
        ubatch_size: 512,
        flash_attn: "auto".into(),
        cache_type_k: "q8_0".into(),
        cache_type_v: "f16".into(),
        mlock: true,
        split_mode: "row".into(),
    };
    let expected: Vec<String> = [
        "-m", "m.gguf", "--mmproj", "p.gguf", "--host", "0.0.0.0", "--port", "9090", "-c",
        "4096", "-ngl", "40", "-t", "8", "-tb", "16", "-b", "2048", "-ub", "512", "-fa", "auto",
        "-ctk", "q8_0", "-ctv", "f16", "--mlock", "-sm", "row",
    ]
    .iter()
    .map(|s| s.to_string())
    .collect();
    assert_eq!(config.to_args(), expected);
}

#[test]
fn to_args_skips_unset_flags() {
    let config = LaunchConfig {
        model_path: "m.gguf".into(),
        mmproj_path: String::new(),
        host: "127.0.0.1".into(),
        port: 0,
        ctx_size: 0,
        gpu_layers: 0,
        threads: 0,
        threads_batch: 0,
        batch_size: 0,
        ubatch_size: 0,
        flash_attn: String::new(),
        cache_type_k: String::new(),
        cache_type_v: String::new(),
        mlock: false,
        split_mode: String::new(),
    };
    let expected: Vec<String> = ["-m", "m.gguf", "--host", "127.0.0.1", "--port", "0"]
        .iter()
        .map(|s| s.to_string())
        .collect();
    assert_eq!(config.to_args(), expected);
}

#[test]
fn default_config_values() {
    let c = LaunchConfig::default();
    assert_eq!(c.host, "127.0.0.1");
    assert_eq!(c.port, 8080);
    assert_eq!(c.ctx_size, 4096);
    assert_eq!(c.threads, 4);
    assert_eq!(c.batch_size, 2048);
    assert_eq!(c.ubatch_size, 512);
    assert_eq!(c.flash_attn, "auto");
    assert_eq!(c.cache_type_k, "q8_0");
    assert_eq!(c.cache_type_v, "q8_0");
    assert!(!c.mlock);
    assert!(c.model_path.is_empty());
}

#[test]
fn kv_cache_exact_value() {
    // 2 * 40 layers * 8 heads * 128 dims * 8192 positions * 1 byte = 640 MiB
    let info = make_info();
    assert_eq!(estimate_kv_cache(8192, &info, "q8_0"), 640);
    assert_eq!(estimate_kv_cache(8192, &info, "f16"), 1280);
    assert_eq!(estimate_kv_cache(8192, &info, "q4_0"), 640);
}

#[test]
fn kv_cache_falls_back_to_head_count_and_default_dim() {
    let mut info = make_info();
    info.head_count_kv = 0;
    info.embedding_length = 0;
    // 2 * 40 * 32 heads * 128 (default dim) * 1024 / MiB = 320
    assert_eq!(estimate_kv_cache(1024, &info, "q8_0"), 320);
}

#[test]
fn default_context_is_capped_or_falls_back() {
    let hw = make_hw(0, 1024);
    let mut info = make_info();
    info.context_length = 1_000_000;
    assert_eq!(compute(&info, &hw, None).ctx_size, 128_000);
    info.context_length = 0;
    assert_eq!(compute(&info, &hw, None).ctx_size, 4096);
}

#[test]
fn partial_offload_is_largest_fitting_count() {
    // 6198 MiB model, 40 layers, 640 MiB cache: 8192 - 1024 - 640 = 6528 MiB
    // for layers, 6528 * 40 / 6198 = 42.1 -> capped at 40; with 4096 MiB:
    // 4096 - 1024 - 640 = 2432, 2432 * 40 / 6198 = 15.69 -> 15 layers.
    let info = make_info();
    assert_eq!(compute(&info, &make_hw(8192, 1024), None).gpu_layers, 40);
    assert_eq!(compute(&info, &make_hw(4096, 1024), None).gpu_layers, 15);
    assert_eq!(compute(&info, &make_hw(1500, 1024), None).gpu_layers, 0);
}

#[test]
fn mlock_default_needs_headroom() {
    let info = make_info();
    // 6198 MiB model: mlock needs more than 9297 MiB available
    assert!(!compute(&info, &make_hw(0, 9297), None).mlock);
    assert!(compute(&info, &make_hw(0, 9298), None).mlock);
}

#[test]
fn flash_attn_needs_llama_and_nvidia() {
    let mut info = make_info();
    info.architecture = "qwen2".into();
    assert_eq!(compute(&info, &make_hw(12288, 1024), None).flash_attn, "off");
    let info = make_info();
    let mut hw = make_hw(12288, 1024);
    hw.has_nvidia = false;
    assert_eq!(compute(&info, &hw, None).flash_attn, "off");
}

#[test]
fn recompute_with_computed_settings_is_stable() {
    let info = make_info();
    let hw = make_hw(4096, 24 * 1024);
    let first = compute(&info, &hw, None);
    let second = compute(&info, &hw, Some(&first));
    assert_eq!(first.to_args(), second.to_args());
    assert_eq!(first.gpu_layers, second.gpu_layers);
    assert_eq!(first.mlock, second.mlock);
}

#[test]
fn cpu_only_estimate_counts_cache_in_ram() {
    let info = make_info();
    let hw = make_hw(0, 24 * 1024);
    let config = compute(&info, &hw, None);
    let est = estimate_resources(&info, &config, &hw);
    assert_eq!(est.total_vram_mb, 0);
    assert!(est.fits_vram);
    assert_eq!(est.model_size_mb, 6198);
    assert_eq!(est.kv_cache_mb, 640);
    assert_eq!(est.total_ram_mb, 6198 + 640);
    assert!(est.fits_ram);
    assert_eq!(est.overhead_mb, 1024);
}

#[test]
fn range_checks_accept_ordinary_models_and_refuse_huge_ones() {
    let info = make_info();
    assert!(compute_in_range(&info, None));
    let mut huge = make_info();
    huge.head_count_kv = u64::MAX / 4;
    assert!(!compute_in_range(&huge, None));
    let config = compute(&info, &make_hw(12288, 1024), None);
    assert!(estimate_in_range(&info, &config));
}

#[test]
fn more_vram_never_offloads_fewer_layers() {
    let info = make_info();
    let mut previous = 0;
    for vram in [0u64, 1024, 2048, 4096, 6144, 8192, 12 * 1024, 24 * 1024] {
        let layers = compute(&info, &make_hw(vram, 24 * 1024), None).gpu_layers;
        assert!(layers >= previous, "{vram} MB gave {layers} layers after {previous}");
        previous = layers;
    }
    assert_eq!(previous, 40);
}

#[test]
fn more_layers_take_more_vram_and_less_ram() {
    let info = make_info();
    let hw = make_hw(12 * 1024, 24 * 1024);
    let mut config = compute(&info, &hw, None);
    let mut previous: Option<(u64, u64)> = None;
    for layers in [0u64, 1, 10, 20, 39, 40] {
        config.gpu_layers = layers;
        assert!(estimate_in_range(&info, &config));
        let r = estimate_resources(&info, &config, &hw);
        if let Some((vram, ram)) = previous {
            assert!(r.total_vram_mb >= vram);
            assert!(r.total_ram_mb <= ram);
        }
        previous = Some((r.total_vram_mb, r.total_ram_mb));
    }
}

#[test]
fn recomputing_with_overrides_is_stable() {
    let info = make_info();
    let hw = make_hw(12 * 1024, 24 * 1024);
    let overrides = LaunchConfig {
        ctx_size: 200_000,
        threads: 0,
        gpu_layers: 0,
        port: 0,
        cache_type_k: "f16".into(),
        ..Default::default()
    };
    assert!(compute_in_range(&info, Some(&overrides)));
    let once = compute(&info, &hw, Some(&overrides));
    let twice = compute(&info, &hw, Some(&once));
    assert_eq!(once.to_args(), twice.to_args());
    assert_eq!(once.ctx_size, 128000);
}
