use llamacpp_manager::github::{
    buildable_assets, builds_for_platform, classify_asset, Arch, Asset, Backend, BuildKind, Release,
    TargetOs,
};

#[test]
fn classify_known_and_unknown_assets() {
    let kind = classify_asset("llama-b10688-bin-ubuntu-vulkan-x64.tar.gz").expect("vulkan");
    assert_eq!(kind.os, Some(TargetOs::Linux));
    assert_eq!(kind.arch, Some(Arch::X64));
    assert_eq!(kind.backend, Backend::Vulkan);

    let kind = classify_asset("llama-b10688-bin-ubuntu-x64.tar.gz").expect("cpu linux");
    assert_eq!(kind.os, Some(TargetOs::Linux));
    assert_eq!(kind.backend, Backend::Cpu);

    let kind = classify_asset("llama-b10688-bin-ubuntu-rocm-7.14-x64.tar.gz").expect("rocm");
    assert_eq!(kind.backend, Backend::Rocm);

    let kind = classify_asset("llama-b10688-bin-win-cuda-12.4-x64.zip").expect("cuda win");
    assert_eq!(kind.os, Some(TargetOs::Windows));
    assert_eq!(kind.arch, Some(Arch::X64));
    assert_eq!(kind.backend, Backend::Cuda);

    let kind = classify_asset("llama-b10688-bin-win-vulkan-x64.zip").expect("vulkan win");
    assert_eq!(kind.backend, Backend::Vulkan);

    let kind = classify_asset("llama-b10688-bin-win-cpu-arm64.zip").expect("arm64");
    assert_eq!(kind.arch, Some(Arch::Arm64));

    let kind = classify_asset("llama-b10688-bin-macos-x64.tar.gz").expect("macos kind");
    assert_eq!(kind.os, None);

    assert_eq!(classify_asset("llama-b10688-ui.tar.gz"), None);
    assert_eq!(classify_asset("llama-b10688-xcframework.zip"), None);
    assert_eq!(classify_asset("cudart-llama-bin-win-cuda-12.4-x64.zip"), None);
    assert_eq!(classify_asset("llama-b10688-src.zip"), None);
    assert_eq!(classify_asset("random-file.zip"), None);
}

#[test]
fn classify_is_case_insensitive_and_checks_extension() {
    assert_eq!(
        classify_asset("LLAMA-B1-BIN-WIN-SYCL-X64.ZIP"),
        Some(BuildKind { os: Some(TargetOs::Windows), arch: Some(Arch::X64), backend: Backend::Sycl })
    );
    assert_eq!(classify_asset("llama-b1-bin-ubuntu-x64.7z"), None);
    assert_eq!(
        classify_asset("llama-b1-bin-ubuntu-openvino-s390x.tar.gz"),
        Some(BuildKind { os: Some(TargetOs::Linux), arch: None, backend: Backend::Openvino })
    );
    assert_eq!(
        classify_asset("llama-b1-bin-win-opencl-adreno-arm64.zip").map(|k| k.backend),
        Some(Backend::Opencl)
    );
}

fn asset(name: &str, url: &str, size: u64) -> Asset {
    Asset { name: name.into(), browser_download_url: url.into(), size }
}

#[test]
fn buildable_assets_filters_and_keeps_tag() {
    let releases = vec![Release {
        tag: "b10688".into(),
        published_at: String::new(),
        assets: vec![
            asset("llama-b10688-bin-ubuntu-x64.tar.gz", "https://example.com/a.tar.gz", 1),
            asset("llama-b10688-bin-win-vulkan-x64.zip", "https://example.com/b.zip", 2),
            asset("llama-b10688-bin-win-cuda-12.4-x64.zip", "https://example.com/c.zip", 3),
            asset("cudart-llama-bin-win-cuda-12.4-x64.zip", "https://example.com/d.zip", 4),
            asset("llama-b10688-ui.tar.gz", "https://example.com/e.zip", 5),
        ],
    }];
    let assets = buildable_assets(&releases);
    assert_eq!(assets.len(), 3);
    assert_eq!(assets[0].tag, "b10688");
    assert_eq!(assets[0].backend, Backend::Cpu);
    assert_eq!(assets[0].os, Some(TargetOs::Linux));
    assert_eq!(assets[1].backend, Backend::Vulkan);
    assert_eq!(assets[0].dir_name(), "llama-b10688-ubuntu-x64");
    assert_eq!(assets[1].dir_name(), "llama-b10688-win-vulkan-x64");
    assert_eq!(
        assets[2].runtime_asset.as_ref().map(|a| a.name.as_str()),
        Some("cudart-llama-bin-win-cuda-12.4-x64.zip")
    );
    assert_eq!(assets[1].runtime_asset, None);
}

#[test]
fn buildable_assets_keeps_release_order_and_missing_runtime() {
    let releases = vec![
        Release {
            tag: "b2".into(),
            published_at: "2025-08-02T00:00:00Z".into(),
            assets: vec![asset("llama-b2-bin-win-cuda-12.4-x64.zip", "u1", 1)],
        },
        Release { tag: "b1".into(), published_at: String::new(), assets: vec![] },
        Release {
            tag: "b0".into(),
            published_at: String::new(),
            assets: vec![asset("llama-b0-bin-ubuntu-x64.tar.gz", "u2", 2)],
        },
    ];
    let assets = buildable_assets(&releases);
    assert_eq!(assets.len(), 2);
    assert_eq!(assets[0].tag, "b2");
    assert_eq!(assets[0].runtime_asset, None);
    assert_eq!(assets[1].tag, "b0");
    assert_eq!(assets[1].asset, asset("llama-b0-bin-ubuntu-x64.tar.gz", "u2", 2));
    assert!(buildable_assets(&[]).is_empty());
}

#[test]
fn backend_labels_and_dir_names() {
    assert_eq!(Backend::Cuda.label(), "CUDA");
    assert_eq!(Backend::Openvino.label(), "OpenVINO");
    assert_eq!(Backend::Other.label(), "Другое");
    let releases = vec![Release {
        tag: "b7".into(),
        published_at: String::new(),
        assets: vec![asset("llama-b7-bin-ubuntu-x64.zip.zip", "u", 0)],
    }];
    // Every trailing `.zip` goes, then `.tar.gz`.
    assert_eq!(buildable_assets(&releases)[0].dir_name(), "llama-b7-ubuntu-x64");
}

#[test]
fn current_platform_names() {
    assert_eq!(TargetOs::current("windows"), Some(TargetOs::Windows));
    assert_eq!(TargetOs::current("linux"), Some(TargetOs::Linux));
    assert_eq!(TargetOs::current("macos"), None);
    assert_eq!(Arch::current("x86_64"), Some(Arch::X64));
    assert_eq!(Arch::current("aarch64"), Some(Arch::Arm64));
    assert_eq!(Arch::current("s390x"), None);
}

#[test]
fn builds_for_this_machine() {
    let names = [
        "llama-b1-bin-ubuntu-x64.zip",
        "llama-b1-bin-ubuntu-vulkan-x64.zip",
        "llama-b1-bin-ubuntu-arm64.zip",
        "llama-b1-bin-win-cuda-12.4-x64.zip",
        "llama-b1-bin-macos-arm64.zip",
        "llama-b1-bin-ubuntu-s390x.zip",
    ];
    let releases = vec![Release {
        tag: "b1".into(),
        published_at: String::new(),
        assets: names
            .iter()
            .map(|n| Asset { name: n.to_string(), browser_download_url: String::new(), size: 1 })
            .collect(),
    }];
    let all = buildable_assets(&releases);
    let pick = |os, arch, backend| -> Vec<String> {
        builds_for_platform(&all, os, arch, backend).into_iter().map(|b| b.asset.name).collect()
    };
    assert_eq!(
        pick(Some(TargetOs::Linux), Some(Arch::X64), None),
        vec!["llama-b1-bin-ubuntu-x64.zip", "llama-b1-bin-ubuntu-vulkan-x64.zip", "llama-b1-bin-ubuntu-s390x.zip"]
    );
    assert_eq!(pick(Some(TargetOs::Linux), Some(Arch::X64), Some(Backend::Vulkan)), vec!["llama-b1-bin-ubuntu-vulkan-x64.zip"]);
    assert_eq!(pick(Some(TargetOs::Windows), Some(Arch::X64), None), vec!["llama-b1-bin-win-cuda-12.4-x64.zip"]);
    assert!(pick(None, Some(Arch::Arm64), None).is_empty());
}
