use llamacpp_manager::huggingface::{
    api_headers, download_url, model_download_request, quant_from_filename, quant_scan_ok, search_url,
    select_gguf_files, tree_url, url_encode, HfFile, TreeEntry,
};

#[test]
fn quant_detection() {
    assert_eq!(
        quant_from_filename("gemma-3n-E4B-it-QAT-UD-Q4_K_XL.gguf"),
        Some("UD-Q4_K_XL".to_string())
    );
    assert_eq!(quant_from_filename("model.Q4_K_M.gguf"), Some("Q4_K_M".to_string()));
    assert_eq!(quant_from_filename("mmproj-F16.gguf"), Some("F16".to_string()));
    assert_eq!(quant_from_filename("model.IQ4_XS.gguf"), Some("IQ4_XS".to_string()));
    assert_eq!(quant_from_filename("somefile.gguf"), None);
}

#[test]
fn quant_detection_more_cases() {
    // Lower case is read as upper case; the result is upper case.
    assert_eq!(quant_from_filename("model-q8_0.gguf"), Some("Q8_0".to_string()));
    // BF16 is told apart from the F16 it contains.
    assert_eq!(quant_from_filename("model-BF16.gguf"), Some("BF16".to_string()));
    assert_eq!(quant_from_filename("model-f32"), Some("F32".to_string()));
    assert_eq!(quant_from_filename("model-F8-e4m3.gguf"), Some("F8".to_string()));
    // A trailing `.GGUF` is not the extension.
    assert_eq!(quant_from_filename("x-Q2_K.GGUF"), Some("Q2_K".to_string()));
    assert!(quant_scan_ok("éabQ4_K.gguf") == false);
    assert!(quant_scan_ok("model.Q4_K_M.gguf"));
    assert!(quant_scan_ok("éaQ4.gguf"));
    assert_eq!(quant_from_filename("éaQ4.gguf"), Some("Q4".to_string()));
}

#[test]
fn url_encoding_and_download_url() {
    assert_eq!(url_encode("qwen 3 gguf"), "qwen%203%20gguf");
    assert_eq!(url_encode("a-b_c.d~e"), "a-b_c.d~e");
    assert_eq!(
        download_url("org/repo", "model-Q4_K_M.gguf"),
        "https://huggingface.co/org/repo/resolve/main/model-Q4_K_M.gguf"
    );
}

#[test]
fn url_encoding_of_utf8_and_reserved() {
    assert_eq!(url_encode("é/?"), "%C3%A9%2F%3F");
    assert_eq!(url_encode(""), "");
    assert_eq!(
        search_url("qwen 3"),
        "https://huggingface.co/api/models?search=qwen%203&filter=gguf&limit=30&sort=downloads&direction=-1"
    );
    assert_eq!(tree_url("org/repo"), "https://huggingface.co/api/models/org/repo/tree/main");
}

fn entry(t: Option<&str>, p: Option<&str>, size: Option<u64>) -> TreeEntry {
    TreeEntry { entry_type: t.map(String::from), path: p.map(String::from), size }
}

#[test]
fn select_gguf_files_filters_gguf_and_dirs() {
    let entries = vec![
        entry(Some("file"), Some("gemma-Q4_K_M.gguf"), Some(100)),
        entry(Some("file"), Some("mmproj-F16.GGUF"), Some(200)),
        entry(Some("file"), Some("readme.md"), Some(10)),
        entry(Some("directory"), Some("sub-Q4_K_M.gguf"), Some(0)),
        entry(Some("file"), None, Some(3)),
        entry(Some("file"), Some("nosize.gguf"), None),
    ];
    let files = select_gguf_files(&entries);
    assert_eq!(
        files,
        vec![
            HfFile { path: "gemma-Q4_K_M.gguf".into(), size: 100 },
            HfFile { path: "mmproj-F16.GGUF".into(), size: 200 },
            HfFile { path: "nosize.gguf".into(), size: 0 },
        ]
    );
}

#[test]
fn download_request_headers() {
    let req = model_download_request("org/repo", "m.gguf", "/tmp/m.gguf", Some("  hf_token \n"));
    assert_eq!(req.url, "https://huggingface.co/org/repo/resolve/main/m.gguf");
    assert_eq!(req.dest, "/tmp/m.gguf");
    assert!(req.resume);
    assert_eq!(
        req.headers,
        vec![
            ("User-Agent".to_string(), "llamacpp-manager".to_string()),
            ("Authorization".to_string(), "Bearer hf_token".to_string()),
        ]
    );
    let req = model_download_request("org/repo", "m.gguf", "/tmp/m.gguf", Some("   "));
    assert_eq!(req.headers.len(), 1);
    let req = model_download_request("org/repo", "m.gguf", "/tmp/m.gguf", None);
    assert_eq!(req.headers.len(), 1);
    assert!(!req.cancel.is_cancelled());
    let other = req.cancel.clone();
    other.cancel();
    assert!(req.cancel.is_cancelled());
}

#[test]
fn api_headers_add_a_bearer_token_when_not_blank() {
    let ua = ("User-Agent".to_string(), "llamacpp-manager".to_string());
    assert_eq!(api_headers(None), vec![ua.clone()]);
    assert_eq!(api_headers(Some("   ")), vec![ua.clone()]);
    assert_eq!(
        api_headers(Some("  hf_abc ")),
        vec![ua, ("Authorization".to_string(), "Bearer hf_abc".to_string())]
    );
}
