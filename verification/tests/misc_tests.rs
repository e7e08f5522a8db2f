use lama_blanket::hwdetect::{assemble_hardware, MemoryHeap, NvidiaDevice, VulkanDevice};
use lama_blanket::server::{ServerError, ServerStatus};
use lama_blanket::config::LaunchConfig;
use lama_blanket::persistence::{NamedPreset, SavedConfig};
use lama_blanket::text::{i64_to_string, trim_string, u64_to_string, contains_str, lex_less_chars};
use lama_blanket::tray::make_default_icon;
use lama_blanket::workflow::{
    apply_preset_settings, check_crash, common_prefix_len, config_from_saved, find_server_exe,
    import_summary, menu_event, preset_from_config, saved_config_for, select_mmproj,
    started_message, start_failed_message, web_ui_url, AppEvent, MmprojCandidate,
};

#[test]
fn default_icon_pixels() {
    let icon = make_default_icon();
    assert_eq!((icon.width, icon.height), (32, 32));
    assert_eq!(icon.rgba.len(), 32 * 32 * 4);
    assert_eq!(&icon.rgba[0..4], &[255, 255, 255, 255]);
    let center = (16 * 32 + 16) * 4;
    assert_eq!(&icon.rgba[center..center + 4], &[40, 100, 200, 255]);
    let edge = (2 * 32 + 1) * 4;
    assert_eq!(&icon.rgba[edge..edge + 4], &[255, 255, 255, 255]);
}

#[test]
fn decimal_rendering() {
    assert_eq!(u64_to_string(0), "0");
    assert_eq!(u64_to_string(18446744073709551615), "18446744073709551615");
    assert_eq!(i64_to_string(-42), "-42");
    assert_eq!(i64_to_string(i64::MIN), i64::MIN.to_string());
}

#[test]
fn text_helpers() {
    assert_eq!(trim_string("\u{2003} hi \u{85}"), "hi");
    assert!(contains_str("abc", ""));
    assert!(contains_str("xx200yy", "200"));
    assert!(!contains_str("20", "200"));
    assert!(lex_less_chars(&"ab".chars().collect(), &"b".chars().collect()));
    assert!(!lex_less_chars(&"b".chars().collect(), &"b".chars().collect()));
    assert!(lex_less_chars(&"b".chars().collect(), &"ba".chars().collect()));
}

#[test]
fn hardware_assembly() {
    let hw = assemble_hardware(
        None,
        8,
        16,
        32 * 1048576 * 1024,
        16 * 1048576 * 1024,
        vec![NvidiaDevice { name: "RTX".into(), vram_bytes: 8 * 1024 * 1048576 }],
        vec![
            VulkanDevice { name_raw: b"RTX\0junk".to_vec(), is_gpu: true, heaps: vec![] },
            VulkanDevice {
                name_raw: b"iGPU\0".to_vec(),
                is_gpu: true,
                heaps: vec![
                    MemoryHeap { size: 2 * 1048576, device_local: true },
                    MemoryHeap { size: 9 * 1048576, device_local: false },
                    MemoryHeap { size: 3 * 1048576, device_local: true },
                ],
            },
            VulkanDevice { name_raw: b"cpu".to_vec(), is_gpu: false, heaps: vec![] },
        ],
    );
    assert_eq!(hw.cpu_name, "Unknown CPU");
    assert_eq!(hw.total_ram_mb, 32 * 1024);
    assert_eq!(hw.available_ram_mb, 16 * 1024);
    assert!(hw.has_nvidia);
    assert_eq!(hw.gpus.len(), 2);
    assert_eq!(hw.gpus[0].name, "RTX");
    assert_eq!(hw.gpus[0].vram_mb, 8 * 1024);
    assert_eq!(hw.gpus[1].name, "iGPU");
    assert_eq!(hw.gpus[1].vram_mb, 3);
}

#[test]
fn hardware_without_gpus_has_placeholder() {
    let hw = assemble_hardware(Some("CPU X".into()), 1, 2, 0, 0, vec![], vec![]);
    assert_eq!(hw.cpu_name, "CPU X");
    assert!(!hw.has_nvidia);
    assert_eq!(hw.gpus.len(), 1);
    assert_eq!(hw.gpus[0].name, "No GPU detected");
    assert_eq!(hw.gpus[0].vram_mb, 0);
}

#[test]
fn prefix_lengths() {
    assert_eq!(common_prefix_len("llama-7b", "llama-mmproj"), 6);
    assert_eq!(common_prefix_len("", "x"), 0);
    assert_eq!(common_prefix_len("abc", "abc"), 3);
}

fn cand(path: &str, ext: &str, name: &str, stem: &str) -> MmprojCandidate {
    MmprojCandidate {
        path: path.into(),
        extension: Some(ext.into()),
        file_name: Some(name.into()),
        stem: Some(stem.into()),
    }
}

#[test]
fn mmproj_selection_prefers_longest_prefix() {
    let picked = select_mmproj(
        Some("Qwen-VL-7B".into()),
        vec![
            cand("/d/other-mmproj.gguf", "gguf", "other-mmproj.gguf", "other-mmproj"),
            cand("/d/qwen-mmproj.gguf", "gguf", "qwen-mmproj.gguf", "qwen-mmproj"),
            cand("/d/qwen-vl-mmproj.gguf", "gguf", "qwen-vl-mmproj.gguf", "qwen-vl-mmproj"),
            cand("/d/qwen-vl-7b.gguf", "gguf", "qwen-vl-7b.gguf", "qwen-vl-7b"),
            cand("/d/qwen-vl-mmproj.bin", "bin", "qwen-vl-mmproj.bin", "qwen-vl-mmproj"),
        ],
    );
    assert_eq!(picked, "/d/qwen-vl-mmproj.gguf");
    assert_eq!(select_mmproj(Some("abc".into()), vec![]), "");
}

#[test]
fn server_exe_choice() {
    assert_eq!(find_server_exe(&vec![false, true, true]), "..\\llama.cpp\\llama-server.exe");
    assert_eq!(find_server_exe(&vec![false, false, true]), "llama-server.exe");
    assert_eq!(find_server_exe(&vec![false, false, false]), "llama.cpp\\llama-server.exe");
}

#[test]
fn crash_reporting() {
    let c = check_crash(&ServerStatus::Running, &ServerStatus::Stopped, false, Some(3), false, true);
    assert!(c.crash_detected);
    assert!(!c.restart);
    assert_eq!(c.message.unwrap(), "Server exited with code 3");

    let c = check_crash(&ServerStatus::Healthy, &ServerStatus::Error("Exit code: Some(1)".into()), false, Some(1), true, true);
    assert!(c.restart);
    assert_eq!(c.message.unwrap(), "Server crashed: Exit code: Some(1) \u{2014} auto-restarting...");

    let c = check_crash(&ServerStatus::Running, &ServerStatus::Stopped, true, Some(0), true, true);
    assert!(c.crash_detected);
    assert!(c.message.is_none());

    let c = check_crash(&ServerStatus::Stopped, &ServerStatus::Running, true, None, false, false);
    assert!(!c.crash_detected);

    let c = check_crash(&ServerStatus::Running, &ServerStatus::Stopped, false, Some(0), false, false);
    assert_eq!(c.message.unwrap(), "Server stopped.");
}

#[test]
fn messages() {
    let cfg = LaunchConfig::default();
    assert_eq!(started_message("Restarted on ", &cfg), "Restarted on 127.0.0.1:8080");
    assert_eq!(web_ui_url(&cfg), "http://127.0.0.1:8080");
    assert_eq!(
        start_failed_message("Launch error: ", &ServerError::ExeNotFound("s.exe".into())),
        "Launch error: Executable not found: s.exe"
    );
    assert_eq!(import_summary(3, 2, 1), "Imported 3 preset(s): 2 added, 1 replaced.");
}

#[test]
fn tray_menu_events() {
    assert_eq!(menu_event("show"), Some(AppEvent::ShowWindow));
    assert_eq!(menu_event("quit"), Some(AppEvent::Quit));
    assert_eq!(menu_event("other"), None);
}

#[test]
fn presets_and_saved_settings() {
    let mut saved = SavedConfig::default();
    saved.ctx_size = Some(2048);
    saved.cache_type_k = Some("f16".into());
    let cfg = config_from_saved(&saved);
    assert_eq!(cfg.ctx_size, 2048);
    assert_eq!(cfg.cache_type_k, "f16");
    assert_eq!(cfg.cache_type_v, "f16");
    assert_eq!(cfg.port, 8080);

    let p = preset_from_config("P".into(), &String::new(), &cfg);
    assert!(p.model_path.is_none());
    assert_eq!(p.ctx_size, Some(2048));
    let mut other = LaunchConfig::default();
    apply_preset_settings(&mut other, &p);
    assert_eq!(other.ctx_size, 2048);
    assert_eq!(other.cache_type_v, "f16");

    let s = saved_config_for(&String::new(), &"m.gguf".to_string(), &cfg, true, false);
    assert!(s.models_folder.is_none());
    assert_eq!(s.last_model.as_deref(), Some("m.gguf"));
    assert_eq!(s.auto_launch, Some(true));

    let partial = NamedPreset {
        name: "x".into(),
        model_path: None,
        ctx_size: None,
        gpu_layers: Some(5),
        threads: None,
        threads_batch: None,
        batch_size: None,
        cache_type_k: None,
        flash_attn: None,
        port: None,
        mlock: None,
    };
    let mut c2 = LaunchConfig::default();
    apply_preset_settings(&mut c2, &partial);
    assert_eq!(c2.gpu_layers, 5);
    assert_eq!(c2.ctx_size, 4096);
}
