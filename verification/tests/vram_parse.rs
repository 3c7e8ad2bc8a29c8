use llamacpp_manager::vram::{amdgpu_vram_total, parse_nvidia_smi, vram_total};

const MIB: u64 = 1024 * 1024;

#[test]
fn nvidia_smi_single_gpu() {
    assert_eq!(parse_nvidia_smi("16384\n").unwrap(), 16384 * MIB);
}

#[test]
fn nvidia_smi_multi_gpu_sums() {
    assert_eq!(parse_nvidia_smi("16384\n8192\n").unwrap(), (16384 + 8192) * MIB);
}

#[test]
fn nvidia_smi_empty_is_none() {
    assert!(parse_nvidia_smi("").is_none());
    assert!(parse_nvidia_smi("\n   \n").is_none());
}

#[test]
fn nvidia_smi_skips_garbage_lines() {
    assert_eq!(parse_nvidia_smi("garbage\n16384\n").unwrap(), 16384 * MIB);
}

#[test]
fn nvidia_smi_crlf_plus_sign_and_saturation() {
    assert_eq!(parse_nvidia_smi("  +8 \r\n4").unwrap(), 12 * MIB);
    assert_eq!(parse_nvidia_smi("0\n0\n"), None);
    assert_eq!(parse_nvidia_smi("-5\n"), None);
    assert_eq!(parse_nvidia_smi("18446744073709551615\n1\n"), Some(u64::MAX));
    assert_eq!(parse_nvidia_smi("18446744073709551616\n"), None);
}

#[test]
fn amdgpu_cards_are_summed_in_bytes() {
    let cards = vec![
        ("card0".to_string(), Some("16777216\n".to_string())),
        ("card1".to_string(), Some("524288".to_string())),
        ("renderD128".to_string(), Some("999".to_string())),
        ("card2".to_string(), None),
        ("card3".to_string(), Some("n/a".to_string())),
    ];
    assert_eq!(amdgpu_vram_total(&cards), Some((16777216 + 524288) * 1024));
    assert_eq!(amdgpu_vram_total(&[("card0".to_string(), None)]), None);
    assert_eq!(amdgpu_vram_total(&[("card0".to_string(), Some("0".to_string()))]), Some(0));
}

#[test]
fn vram_total_prefers_amdgpu() {
    assert_eq!(vram_total(Some(7), Some(b"16384\n".to_vec())), Some(7));
    assert_eq!(vram_total(None, Some(b"16384\n".to_vec())), Some(16384 * MIB));
    assert_eq!(vram_total(None, Some(vec![0xff, b'1'])), None);
    assert_eq!(vram_total(None, None), None);
}

#[test]
fn whitespace_matches_the_standard_library() {
    // Trimming a one-char text removes it exactly when std calls it whitespace.
    for c in (0u32..0x110000).filter_map(char::from_u32) {
        let trimmed = llamacpp_manager::text::trim_chars(&[c]);
        assert_eq!(trimmed.is_empty(), c.is_whitespace(), "U+{:04X}", c as u32);
    }
}
