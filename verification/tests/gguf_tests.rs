use lama_blanket::gguf::{file_type_name, parse_gguf, GgufError, GgufType, ReadError};

#[test]
fn test_file_type_names() {
    assert_eq!(file_type_name(0), "F32");
    assert_eq!(file_type_name(1), "F16");
    assert_eq!(file_type_name(15), "Q4_K_M");
    assert_eq!(file_type_name(99), "unknown");
}

fn push_str(buf: &mut Vec<u8>, s: &str) {
    buf.extend_from_slice(&(s.len() as u64).to_le_bytes());
    buf.extend_from_slice(s.as_bytes());
}

fn header(version: u32, kv_count: u64) -> Vec<u8> {
    let mut b = b"GGUF".to_vec();
    b.extend_from_slice(&version.to_le_bytes());
    b.extend_from_slice(&7u64.to_le_bytes());
    b.extend_from_slice(&kv_count.to_le_bytes());
    b
}

fn kv_string(buf: &mut Vec<u8>, key: &str, value: &str) {
    push_str(buf, key);
    buf.extend_from_slice(&8u32.to_le_bytes());
    push_str(buf, value);
}

fn kv_u32(buf: &mut Vec<u8>, key: &str, value: u32) {
    push_str(buf, key);
    buf.extend_from_slice(&4u32.to_le_bytes());
    buf.extend_from_slice(&value.to_le_bytes());
}

fn kv_u64(buf: &mut Vec<u8>, key: &str, value: u64) {
    push_str(buf, key);
    buf.extend_from_slice(&10u32.to_le_bytes());
    buf.extend_from_slice(&value.to_le_bytes());
}

fn sample_file() -> Vec<u8> {
    let mut b = header(3, 9);
    kv_string(&mut b, "general.architecture", "llama");
    kv_string(&mut b, "general.name", "Tiny Llama");
    kv_u32(&mut b, "general.file_type", 15);
    kv_u32(&mut b, "llama.context_length", 8192);
    kv_u64(&mut b, "llama.block_count", 40);
    kv_u32(&mut b, "llama.embedding_length", 4096);
    kv_u32(&mut b, "llama.attention.head_count", 32);
    kv_u32(&mut b, "llama.attention.head_count_kv", 8);
    // an array of two float values, read and skipped
    push_str(&mut b, "tokenizer.scores");
    b.extend_from_slice(&9u32.to_le_bytes());
    b.extend_from_slice(&6u32.to_le_bytes());
    b.extend_from_slice(&2u64.to_le_bytes());
    b.extend_from_slice(&1.5f32.to_le_bytes());
    b.extend_from_slice(&2.5f32.to_le_bytes());
    b
}

#[test]
fn parses_metadata_fields() {
    let info = parse_gguf(&sample_file(), 123, Some("stem".into())).unwrap();
    assert_eq!(info.architecture, "llama");
    assert_eq!(info.model_name, "Tiny Llama");
    assert_eq!(info.file_type, 15);
    assert_eq!(info.context_length, 8192);
    assert_eq!(info.block_count, 40);
    assert_eq!(info.embedding_length, 4096);
    assert_eq!(info.head_count, 32);
    assert_eq!(info.head_count_kv, 8);
    assert_eq!(info.file_size, 123);
}

#[test]
fn model_name_falls_back_to_stem_then_unknown() {
    let mut b = header(2, 2);
    kv_string(&mut b, "general.architecture", "qwen2");
    kv_u32(&mut b, "qwen2.block_count", 28);
    let info = parse_gguf(&b, 0, Some("my-model".into())).unwrap();
    assert_eq!(info.model_name, "my-model");
    let info = parse_gguf(&b, 0, None).unwrap();
    assert_eq!(info.model_name, "unknown");
}

#[test]
fn arch_keys_before_architecture_are_ignored() {
    let mut b = header(3, 3);
    kv_u32(&mut b, "llama.block_count", 99);
    kv_string(&mut b, "general.architecture", "llama");
    kv_u32(&mut b, "llama.block_count", 12);
    let info = parse_gguf(&b, 0, None).unwrap();
    assert_eq!(info.block_count, 12);
    let mut b = header(3, 2);
    kv_u32(&mut b, "llama.block_count", 99);
    kv_string(&mut b, "general.architecture", "llama");
    match parse_gguf(&b, 0, None) {
        Err(GgufError::InvalidFormat(m)) => assert_eq!(m, "No block_count found for architecture"),
        other => panic!("unexpected: {:?}", other),
    }
}

#[test]
fn rejects_bad_magic() {
    match parse_gguf(b"GGML\x03\x00\x00\x00", 0, None) {
        Err(GgufError::InvalidFormat(m)) => assert_eq!(m, "Missing GGUF magic bytes"),
        other => panic!("unexpected: {:?}", other),
    }
}

#[test]
fn rejects_short_input() {
    match parse_gguf(b"GG", 0, None) {
        Err(GgufError::Io(ReadError::UnexpectedEof)) => {}
        other => panic!("unexpected: {:?}", other),
    }
    let mut b = sample_file();
    b.truncate(b.len() - 3);
    match parse_gguf(&b, 0, None) {
        Err(GgufError::Io(ReadError::UnexpectedEof)) => {}
        other => panic!("unexpected: {:?}", other),
    }
}

#[test]
fn rejects_unsupported_version() {
    match parse_gguf(&header(1, 0), 0, None) {
        Err(GgufError::UnsupportedVersion(1)) => {}
        other => panic!("unexpected: {:?}", other),
    }
    match parse_gguf(&header(4, 0), 0, None) {
        Err(GgufError::UnsupportedVersion(4)) => {}
        other => panic!("unexpected: {:?}", other),
    }
}

#[test]
fn rejects_missing_architecture() {
    match parse_gguf(&header(3, 0), 0, None) {
        Err(GgufError::InvalidFormat(m)) => {
            assert_eq!(m, "No general.architecture found in metadata")
        }
        other => panic!("unexpected: {:?}", other),
    }
}

#[test]
fn rejects_unknown_value_types() {
    let mut b = header(3, 1);
    push_str(&mut b, "x");
    b.extend_from_slice(&13u32.to_le_bytes());
    match parse_gguf(&b, 0, None) {
        Err(GgufError::InvalidFormat(m)) => assert_eq!(m, "Unknown value type: 13"),
        other => panic!("unexpected: {:?}", other),
    }
    let mut b = header(3, 1);
    push_str(&mut b, "x");
    b.extend_from_slice(&9u32.to_le_bytes());
    b.extend_from_slice(&42u32.to_le_bytes());
    b.extend_from_slice(&0u64.to_le_bytes());
    match parse_gguf(&b, 0, None) {
        Err(GgufError::Io(ReadError::UnknownValueType(42))) => {}
        other => panic!("unexpected: {:?}", other),
    }
}

#[test]
fn type_codes() {
    assert_eq!(GgufType::from_u32(8).unwrap(), GgufType::String);
    assert_eq!(GgufType::from_u32(12).unwrap(), GgufType::F64);
    assert!(GgufType::from_u32(13).is_err());
}

#[test]
fn invalid_utf8_is_replaced() {
    let mut b = header(3, 2);
    push_str(&mut b, "general.architecture");
    b.extend_from_slice(&8u32.to_le_bytes());
    b.extend_from_slice(&3u64.to_le_bytes());
    b.extend_from_slice(&[b'a', 0xff, b'b']);
    kv_u32(&mut b, "a\u{fffd}b.block_count", 5);
    let info = parse_gguf(&b, 0, None).unwrap();
    assert_eq!(info.architecture, "a\u{fffd}b");
    assert_eq!(info.block_count, 5);
}
