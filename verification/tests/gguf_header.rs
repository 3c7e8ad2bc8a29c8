use llamacpp_manager::gguf::{
    file_type_label, kv_shape, memory_estimate, read_header_from, GgufError, GgufInfo, KvShape,
    MemoryEstimate,
};

const MAGIC: [u8; 4] = *b"GGUF";

fn put_string(buf: &mut Vec<u8>, s: &str) {
    buf.extend_from_slice(&(s.len() as u64).to_le_bytes());
    buf.extend_from_slice(s.as_bytes());
}

fn put_kv_u32(buf: &mut Vec<u8>, key: &str, value: u32) {
    put_string(buf, key);
    buf.extend_from_slice(&4u32.to_le_bytes());
    buf.extend_from_slice(&value.to_le_bytes());
}

/// A minimal GGUF in memory: header and a set of metadata entries.
fn build_test_gguf() -> Vec<u8> {
    let mut buf = Vec::new();
    buf.extend_from_slice(&MAGIC);
    buf.extend_from_slice(&3u32.to_le_bytes());
    buf.extend_from_slice(&405u64.to_le_bytes());
    buf.extend_from_slice(&7u64.to_le_bytes());

    put_string(&mut buf, "general.architecture");
    buf.extend_from_slice(&8u32.to_le_bytes());
    put_string(&mut buf, "gemma3n");

    put_kv_u32(&mut buf, "general.file_type", 15);
    put_kv_u32(&mut buf, "gemma3n.block_count", 35);
    put_kv_u32(&mut buf, "gemma3n.embedding_length", 2048);
    put_kv_u32(&mut buf, "gemma3n.attention.head_count", 8);
    put_kv_u32(&mut buf, "gemma3n.attention.head_count_kv", 2);
    put_kv_u32(&mut buf, "gemma3n.context_length", 32768);

    put_string(&mut buf, "tokenizer.ggml.tokens");
    buf.extend_from_slice(&9u32.to_le_bytes());
    buf.extend_from_slice(&8u32.to_le_bytes());
    buf.extend_from_slice(&3u64.to_le_bytes());
    put_string(&mut buf, "<pad>");
    put_string(&mut buf, "<eos>");
    put_string(&mut buf, "hello");

    put_string(&mut buf, "tokenizer.ggml.scores");
    buf.extend_from_slice(&9u32.to_le_bytes());
    buf.extend_from_slice(&6u32.to_le_bytes());
    buf.extend_from_slice(&2u64.to_le_bytes());
    buf.extend_from_slice(&0f32.to_le_bytes());
    buf.extend_from_slice(&0f32.to_le_bytes());

    buf
}

#[test]
fn read_header_parses_metadata_and_skips_arrays() {
    let data = build_test_gguf();
    let info = read_header_from(data.as_slice()).expect("разбор заголовка");
    assert_eq!(info.version, 3);
    assert_eq!(info.tensor_count, 405);
    assert_eq!(info.arch.as_deref(), Some("gemma3n"));
    assert_eq!(info.file_type, Some(15));
    assert_eq!(info.n_layers, Some(35));
    assert_eq!(info.n_embd, Some(2048));
    assert_eq!(info.n_head, Some(8));
    assert_eq!(info.n_head_kv, Some(2));
    assert_eq!(info.ctx_train, Some(32768));
}

#[test]
fn not_gguf_file_is_rejected() {
    let reader: &[u8] = b"PK\x03\x04 garbage";
    assert!(read_header_from(reader).is_err());
}

#[test]
fn bad_magic_and_old_version_errors() {
    assert_eq!(read_header_from(b"PK\x03\x04 garbage"), Err(GgufError::BadMagic));
    assert_eq!(read_header_from(b"GG"), Err(GgufError::UnexpectedEof));
    let mut old = MAGIC.to_vec();
    old.extend_from_slice(&1u32.to_le_bytes());
    assert_eq!(read_header_from(&old), Err(GgufError::UnsupportedVersion(1)));
}

#[test]
fn truncated_header_is_unexpected_eof() {
    // Count all nine entries, so that the two arrays at the end are walked too.
    let mut data = build_test_gguf();
    data[16..24].copy_from_slice(&9u64.to_le_bytes());
    assert_eq!(read_header_from(&data).unwrap(), read_header_from(&build_test_gguf()).unwrap());
    // Every proper prefix past the magic ends too early.
    for cut in [5usize, 12, 30, data.len() - 1] {
        assert_eq!(read_header_from(&data[..cut]), Err(GgufError::UnexpectedEof), "cut {cut}");
    }
    // Extra bytes after the metadata (tensor data) are not read.
    let mut longer = data.clone();
    longer.extend_from_slice(&[0xAB; 64]);
    assert_eq!(read_header_from(&longer).unwrap(), read_header_from(&data).unwrap());
}

#[test]
fn too_many_keys_and_unknown_types() {
    let mut many = MAGIC.to_vec();
    many.extend_from_slice(&3u32.to_le_bytes());
    many.extend_from_slice(&0u64.to_le_bytes());
    many.extend_from_slice(&100_001u64.to_le_bytes());
    assert_eq!(read_header_from(&many), Err(GgufError::TooManyKeys(100_001)));

    let mut unknown = MAGIC.to_vec();
    unknown.extend_from_slice(&3u32.to_le_bytes());
    unknown.extend_from_slice(&0u64.to_le_bytes());
    unknown.extend_from_slice(&1u64.to_le_bytes());
    put_string(&mut unknown, "x");
    unknown.extend_from_slice(&13u32.to_le_bytes());
    assert_eq!(read_header_from(&unknown), Err(GgufError::UnknownValueType(13)));

    let mut bad_array = MAGIC.to_vec();
    bad_array.extend_from_slice(&3u32.to_le_bytes());
    bad_array.extend_from_slice(&0u64.to_le_bytes());
    bad_array.extend_from_slice(&1u64.to_le_bytes());
    put_string(&mut bad_array, "x");
    bad_array.extend_from_slice(&9u32.to_le_bytes());
    bad_array.extend_from_slice(&77u32.to_le_bytes());
    bad_array.extend_from_slice(&1u64.to_le_bytes());
    assert_eq!(read_header_from(&bad_array), Err(GgufError::UnknownArrayType(77)));

    let mut long_array = MAGIC.to_vec();
    long_array.extend_from_slice(&3u32.to_le_bytes());
    long_array.extend_from_slice(&0u64.to_le_bytes());
    long_array.extend_from_slice(&1u64.to_le_bytes());
    put_string(&mut long_array, "x");
    long_array.extend_from_slice(&9u32.to_le_bytes());
    long_array.extend_from_slice(&0u32.to_le_bytes());
    long_array.extend_from_slice(&10_000_001u64.to_le_bytes());
    assert_eq!(read_header_from(&long_array), Err(GgufError::ArrayTooLong(10_000_001)));
}

#[test]
fn invalid_utf8_and_long_strings_are_rejected() {
    let mut bad = MAGIC.to_vec();
    bad.extend_from_slice(&3u32.to_le_bytes());
    bad.extend_from_slice(&0u64.to_le_bytes());
    bad.extend_from_slice(&1u64.to_le_bytes());
    bad.extend_from_slice(&2u64.to_le_bytes());
    bad.extend_from_slice(&[0xC3, 0x28]);
    assert_eq!(read_header_from(&bad), Err(GgufError::InvalidUtf8));

    let mut long = MAGIC.to_vec();
    long.extend_from_slice(&3u32.to_le_bytes());
    long.extend_from_slice(&0u64.to_le_bytes());
    long.extend_from_slice(&1u64.to_le_bytes());
    long.extend_from_slice(&((1u64 << 20) + 1).to_le_bytes());
    assert_eq!(read_header_from(&long), Err(GgufError::StringTooLong((1 << 20) + 1)));
}

#[test]
fn first_scalar_wins_last_architecture_wins() {
    let mut buf = MAGIC.to_vec();
    buf.extend_from_slice(&2u32.to_le_bytes());
    buf.extend_from_slice(&1u64.to_le_bytes());
    buf.extend_from_slice(&5u64.to_le_bytes());
    put_string(&mut buf, "general.architecture");
    buf.extend_from_slice(&8u32.to_le_bytes());
    put_string(&mut buf, "llama");
    put_kv_u32(&mut buf, "qwen.block_count", 10);
    put_kv_u32(&mut buf, "qwen.block_count", 20);
    // i8 -1 is widened with its sign.
    put_string(&mut buf, "general.file_type");
    buf.extend_from_slice(&1u32.to_le_bytes());
    buf.push(0xFF);
    put_string(&mut buf, "general.architecture");
    buf.extend_from_slice(&8u32.to_le_bytes());
    put_string(&mut buf, "qwen");
    let info = read_header_from(&buf).unwrap();
    assert_eq!(
        info,
        GgufInfo {
            version: 2,
            tensor_count: 1,
            arch: Some("qwen".to_string()),
            n_layers: Some(10),
            n_embd: None,
            n_head: None,
            n_head_kv: None,
            ctx_train: None,
            file_type: Some(u32::MAX),
        }
    );
}

#[test]
fn file_type_labels() {
    assert_eq!(file_type_label(15), Some("Q4_K_M"));
    assert_eq!(file_type_label(0), Some("F32"));
    assert_eq!(file_type_label(32), Some("BF16"));
    assert_eq!(file_type_label(4), None);
    assert_eq!(file_type_label(33), None);
}

/// The estimate as the application makes it: the KV cache size is the
/// shape's element count times the bytes per element.
fn estimate(info: &GgufInfo, file_size: u64, ctx: Option<u64>, elem: f64, all: bool) -> Option<MemoryEstimate> {
    let shape = kv_shape(info, ctx)?;
    let kv = if shape.kv_dim > 0 {
        (2.0 * shape.layers as f64 * shape.ctx as f64 * shape.kv_dim as f64 * elem) as u64
    } else {
        0
    };
    Some(memory_estimate(file_size, kv, shape.ctx, all))
}

fn gemma() -> GgufInfo {
    GgufInfo {
        version: 3,
        tensor_count: 405,
        arch: Some("gemma3n".into()),
        n_layers: Some(35),
        n_embd: Some(2048),
        n_head: Some(8),
        n_head_kv: Some(2),
        ctx_train: Some(32768),
        file_type: Some(15),
    }
}

#[test]
fn estimate_accounts_gqa_and_ctx_override() {
    let info = gemma();
    let file_size = 4u64 * 1024 * 1024 * 1024;

    // Trained context: kv_dim = 2048 * 2 / 8 = 512.
    assert_eq!(kv_shape(&info, None), Some(KvShape { layers: 35, ctx: 32768, kv_dim: 512 }));
    let est = estimate(&info, file_size, None, 2.0, true).expect("estimate");
    assert_eq!(est.ctx_used, 32768);
    let kv_expected = 2 * 35 * 32768 * 512 * 2;
    assert_eq!(est.kv_cache_bytes, kv_expected);
    assert_eq!(est.weights_bytes, file_size);
    assert_eq!(est.gpu_bytes, est.kv_cache_bytes + est.weights_bytes);

    // Context chosen in the server parameters.
    let est = estimate(&info, file_size, Some(8192), 2.0, false).expect("estimate");
    assert_eq!(est.ctx_used, 8192);
    assert_eq!(est.kv_cache_bytes, 2 * 35 * 8192 * 512 * 2);
    assert_eq!(est.gpu_bytes, est.kv_cache_bytes);
}

#[test]
fn estimate_requires_layers_and_ctx() {
    let empty = GgufInfo {
        version: 0,
        tensor_count: 0,
        arch: None,
        n_layers: None,
        n_embd: None,
        n_head: None,
        n_head_kv: None,
        ctx_train: None,
        file_type: None,
    };
    assert!(estimate(&empty, 1000, None, 2.0, true).is_none());
    let no_ctx = GgufInfo { ctx_train: None, ..gemma() };
    assert_eq!(kv_shape(&no_ctx, None), None);
    assert_eq!(kv_shape(&no_ctx, Some(4096)).unwrap().ctx, 4096);
    // Without head counts the full embedding width is used; zero heads too.
    let no_heads = GgufInfo { n_head: Some(0), ..gemma() };
    assert_eq!(kv_shape(&no_heads, None).unwrap().kv_dim, 2048);
    let no_embd = GgufInfo { n_embd: None, ..gemma() };
    assert_eq!(kv_shape(&no_embd, None).unwrap().kv_dim, 0);
}

#[test]
fn kv_shape_without_layers_or_context_needs_no_width() {
    // Head counts whose product overflows are never multiplied without layers or a context.
    let wide = GgufInfo {
        n_embd: Some(u64::MAX),
        n_head: Some(2),
        n_head_kv: Some(4),
        ctx_train: Some(4096),
        ..GgufInfo::default()
    };
    assert_eq!(kv_shape(&wide, None), None);
    let no_ctx = GgufInfo { n_layers: Some(32), ctx_train: None, ..wide };
    assert_eq!(kv_shape(&no_ctx, None), None);
}
