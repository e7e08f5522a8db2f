use lama_blanket::persistence::{
    delete_presets_named, find_preset, merge_presets, normalize_preset, normalize_presets,
    scan_models_folder, sort_presets, upsert_preset, FoundFile, NamedPreset, SavedConfig,
};

fn preset(name: &str, ctx: Option<u64>, layers: Option<u64>) -> NamedPreset {
    NamedPreset {
        name: name.into(),
        model_path: None,
        ctx_size: ctx,
        gpu_layers: layers,
        threads: None,
        threads_batch: None,
        batch_size: None,
        cache_type_k: None,
        flash_attn: None,
        port: None,
        mlock: None,
    }
}

#[test]
fn merge_presets_adds_and_replaces_by_name() {
    let mut existing = vec![NamedPreset {
        name: "Base".into(),
        model_path: None,
        ctx_size: Some(2048),
        gpu_layers: Some(8),
        threads: None,
        threads_batch: None,
        batch_size: None,
        cache_type_k: None,
        flash_attn: None,
        port: None,
        mlock: None,
    }];

    let imported = vec![
        NamedPreset {
            name: "Base".into(),
            model_path: None,
            ctx_size: Some(4096),
            gpu_layers: Some(16),
            threads: None,
            threads_batch: None,
            batch_size: None,
            cache_type_k: None,
            flash_attn: None,
            port: None,
            mlock: None,
        },
        NamedPreset {
            name: "Vision".into(),
            model_path: None,
            ctx_size: Some(8192),
            gpu_layers: Some(24),
            threads: None,
            threads_batch: None,
            batch_size: None,
            cache_type_k: None,
            flash_attn: None,
            port: None,
            mlock: None,
        },
    ];

    let (added, replaced) = merge_presets(&mut existing, imported);

    assert_eq!(added, 1);
    assert_eq!(replaced, 1);
    assert_eq!(existing.len(), 2);
    assert_eq!(existing[0].name, "Base");
    assert_eq!(existing[0].ctx_size, Some(4096));
    assert_eq!(existing[1].name, "Vision");
}

#[test]
fn merge_keeps_last_import_of_a_name() {
    let mut existing = vec![preset("keep", Some(1), None)];
    let imported = vec![
        preset("dup", Some(1), None),
        preset("dup", Some(2), None),
    ];
    let (added, replaced) = merge_presets(&mut existing, imported);
    assert_eq!((added, replaced), (1, 1));
    assert_eq!(existing.len(), 2);
    assert_eq!(existing[0].name, "dup");
    assert_eq!(existing[0].ctx_size, Some(2));
    assert_eq!(existing[1].name, "keep");
}

#[test]
fn sort_is_case_insensitive_and_stable() {
    let mut v = vec![
        preset("beta", Some(1), None),
        preset("Alpha", Some(2), None),
        preset("BETA", Some(3), None),
        preset("alpha", Some(4), None),
    ];
    sort_presets(&mut v);
    let order: Vec<Option<u64>> = v.iter().map(|p| p.ctx_size).collect();
    assert_eq!(order, vec![Some(2), Some(4), Some(1), Some(3)]);
}

#[test]
fn normalize_trims_and_drops_empty_names() {
    let p = normalize_preset(preset("  Spaced \t", None, None)).unwrap();
    assert_eq!(p.name, "Spaced");
    assert!(normalize_preset(preset(" \n\u{3000}", None, None)).is_none());
}

#[test]
fn normalize_presets_errors_when_nothing_is_left() {
    let err = normalize_presets(vec![preset("   ", None, None)]).unwrap_err();
    assert_eq!(err, "No valid presets found in the selected file.");
    let ok = normalize_presets(vec![preset(" B ", None, None), preset("", None, None), preset("A", None, None)])
        .unwrap();
    let names: Vec<&str> = ok.iter().map(|p| p.name.as_str()).collect();
    assert_eq!(names, vec!["B", "A"]);
}

#[test]
fn upsert_replaces_and_sorts() {
    let mut v = vec![preset("b", Some(1), None), preset("a", Some(1), None)];
    upsert_preset(&mut v, preset("b", Some(9), None));
    assert_eq!(v.len(), 2);
    assert_eq!(v[0].name, "a");
    assert_eq!(v[1].name, "b");
    assert_eq!(v[1].ctx_size, Some(9));
}

#[test]
fn delete_removes_every_preset_with_the_name() {
    let mut v = vec![preset("x", None, None), preset("y", None, None), preset("x", None, None)];
    delete_presets_named(&mut v, &"x".to_string());
    assert_eq!(v.len(), 1);
    assert_eq!(v[0].name, "y");
}

#[test]
fn find_preset_finds_the_first() {
    let v = vec![preset("x", Some(1), None), preset("x", Some(2), None)];
    assert_eq!(find_preset(&v, &"x".to_string()), Some(0));
    assert_eq!(find_preset(&v, &"z".to_string()), None);
}

#[test]
fn saved_config_default_is_empty() {
    let c = SavedConfig::default();
    assert!(c.models_folder.is_none());
    assert!(c.ctx_size.is_none());
    assert!(c.dark_mode.is_none());
}

fn file(path: &str, ext: Option<&str>, name: Option<&str>, first: Option<&str>, is_file: bool) -> FoundFile {
    FoundFile {
        path: path.into(),
        extension: ext.map(|s| s.to_string()),
        file_name: name.map(|s| s.to_string()),
        size_mb: 7,
        first_component: first.map(|s| s.to_string()),
        component_is_file: is_file,
    }
}

#[test]
fn scan_lists_gguf_models_sorted() {
    let files = vec![
        file("/m/b/Zeta.GGUF", Some("GGUF"), Some("Zeta.GGUF"), Some("b"), false),
        file("/m/alpha.gguf", Some("gguf"), Some("alpha.gguf"), Some("alpha.gguf"), true),
        file("/m/a/x-MMPROJ.gguf", Some("gguf"), Some("x-MMPROJ.gguf"), Some("a"), false),
        file("/m/readme.txt", Some("txt"), Some("readme.txt"), Some("readme.txt"), true),
        file("/m/noext", None, Some("noext"), Some("noext"), true),
    ];
    let entries = scan_models_folder(files);
    assert_eq!(entries.len(), 2);
    assert_eq!(entries[0].filename, "alpha.gguf");
    assert_eq!(entries[0].author, "");
    assert_eq!(entries[1].filename, "Zeta.GGUF");
    assert_eq!(entries[1].author, "b");
    assert_eq!(entries[1].path, "/m/b/Zeta.GGUF");
    assert_eq!(entries[1].size_mb, 7);
}

#[test]
fn scan_names_unreadable_files_unknown() {
    let entries = scan_models_folder(vec![file("/m/x.gguf", Some("gguf"), None, Some("."), false)]);
    assert_eq!(entries.len(), 1);
    assert_eq!(entries[0].filename, "unknown");
    assert_eq!(entries[0].author, "");
}

#[test]
fn merging_the_same_import_twice_changes_nothing() {
    let mut existing = vec![preset("Base", Some(2048), Some(8)), preset("Other", None, None)];
    let imported = vec![
        preset("Vision", Some(8192), Some(24)),
        preset("Base", Some(4096), Some(16)),
        preset("Vision", Some(1024), None),
    ];
    let first = merge_presets(&mut existing, imported.clone());
    assert_eq!(first, (1, 2));
    let names: Vec<String> = existing.iter().map(|p| p.name.clone()).collect();
    let ctx: Vec<Option<u64>> = existing.iter().map(|p| p.ctx_size).collect();
    let second = merge_presets(&mut existing, imported);
    assert_eq!(second, (0, 3));
    assert_eq!(existing.iter().map(|p| p.name.clone()).collect::<Vec<_>>(), names);
    assert_eq!(existing.iter().map(|p| p.ctx_size).collect::<Vec<_>>(), ctx);
    assert_eq!(ctx, vec![Some(4096), None, Some(1024)]);
}
