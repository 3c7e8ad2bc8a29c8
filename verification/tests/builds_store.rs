use llamacpp_manager::builds::{server_binary_candidates, server_exe_name};
use llamacpp_manager::builds::{
    cache_to_write, cached_releases, parse_dir_name, releases_after_fetch, releases_cache_is_fresh,
    BuildsStore, InstalledBuild, RELEASES_CACHE_AGE_SECS,
};
use llamacpp_manager::github::{buildable_assets, Asset, Backend, Release};

#[test]
fn parse_dir_name_variants() {
    assert_eq!(parse_dir_name("llama-b10635-ubuntu-x64"), Some(("b10635".into(), Backend::Cpu)));
    assert_eq!(
        parse_dir_name("llama-b10635-win-cuda-12.4-x64"),
        Some(("b10635".into(), Backend::Cuda))
    );
    assert_eq!(
        parse_dir_name("llama-b10635-win-vulkan-x64"),
        Some(("b10635".into(), Backend::Vulkan))
    );
    assert_eq!(parse_dir_name("releases-cache.json"), None);
    assert_eq!(parse_dir_name("llama--ubuntu"), None);
}

#[test]
fn parse_dir_name_needs_a_dash_after_the_tag() {
    assert_eq!(parse_dir_name("llama-b1"), None);
    assert_eq!(parse_dir_name("llama-"), None);
    // The backend is read from everything after `llama-`.
    assert_eq!(parse_dir_name("llama-vulkan-x"), Some(("vulkan".into(), Backend::Vulkan)));
}

#[test]
fn installed_build_label() {
    let build = InstalledBuild { dir: "/b/llama-b1-x".into(), tag: "b1".into(), backend: Backend::Vulkan };
    assert_eq!(build.label(), "b1 · Vulkan");
}

#[test]
fn dir_for_joins_the_build_directory() {
    let store = BuildsStore::new("/data/builds".to_string());
    assert_eq!(store.dir(), "/data/builds");
    let releases = vec![Release {
        tag: "b10635".into(),
        published_at: String::new(),
        assets: vec![Asset {
            name: "llama-b10635-bin-ubuntu-x64.zip".into(),
            browser_download_url: "https://unused".into(),
            size: 0,
        }],
    }];
    let asset = &buildable_assets(&releases)[0];
    let dir = store.dir_for(asset);
    assert!(
        dir == "/data/builds/llama-b10635-ubuntu-x64" || dir == "/data/builds\\llama-b10635-ubuntu-x64",
        "{dir}"
    );
}

#[test]
fn cache_freshness() {
    assert!(releases_cache_is_fresh(false, Some(1_000), 1_000 + RELEASES_CACHE_AGE_SECS - 1));
    assert!(!releases_cache_is_fresh(false, Some(1_000), 1_000 + RELEASES_CACHE_AGE_SECS));
    assert!(!releases_cache_is_fresh(true, Some(1_000), 1_000));
    assert!(!releases_cache_is_fresh(false, None, 1_000));
    // A cache stamped in the future counts as fresh.
    assert!(releases_cache_is_fresh(false, Some(5_000), 1_000));
}

#[test]
fn stale_cache_is_used_when_the_network_fails() {
    let cached = vec![Release { tag: "b10635".into(), published_at: String::new(), assets: vec![] }];
    let fresh = vec![Release { tag: "b20000".into(), published_at: String::new(), assets: vec![] }];
    let got = releases_after_fetch(Err("сеть недоступна".into()), Some(cached.clone())).unwrap();
    assert_eq!(got[0].tag, "b10635");
    assert!(releases_after_fetch(Err("сеть недоступна".into()), None).is_err());
    let got = releases_after_fetch(Ok(fresh), Some(cached)).unwrap();
    assert_eq!(got[0].tag, "b20000");
}

#[test]
fn server_binary_candidates_in_order() {
    assert_eq!(server_exe_name(true), "llama-server.exe");
    assert_eq!(server_exe_name(false), "llama-server");
    let got = server_binary_candidates("/b/llama-b1-x", &["/b/llama-b1-x/bin".to_string()], false);
    assert_eq!(got.len(), 2);
    assert!(got[0] == "/b/llama-b1-x/llama-server" || got[0] == "/b/llama-b1-x\\llama-server");
    assert!(got[1].ends_with("llama-server") && got[1].starts_with("/b/llama-b1-x/bin"));
}

#[test]
fn installed_builds_newest_first() {
    let store = BuildsStore::new("/b".to_string());
    let entries = vec![
        ("/b/llama-b100-ubuntu-x64".to_string(), "llama-b100-ubuntu-x64".to_string()),
        ("/b/.staging-llama-b1".to_string(), ".staging-llama-b1".to_string()),
        ("/b/llama-b200-win-cuda-12.4-x64".to_string(), "llama-b200-win-cuda-12.4-x64".to_string()),
        ("/b/llama-b150-win-vulkan-x64".to_string(), "llama-b150-win-vulkan-x64".to_string()),
    ];
    let got = store.installed(&entries);
    let tags: Vec<&str> = got.iter().map(|b| b.tag.as_str()).collect();
    assert_eq!(tags, vec!["b200", "b150", "b100"]);
    assert_eq!(got[0].backend, Backend::Cuda);
    assert_eq!(got[1].backend, Backend::Vulkan);
    assert_eq!(got[2].dir, "/b/llama-b100-ubuntu-x64");
    assert!(store.installed(&[]).is_empty());
}

fn release(tag: &str) -> Release {
    Release {
        tag: tag.into(),
        published_at: "2025-01-02T03:04:05Z".into(),
        assets: vec![Asset {
            name: format!("llama-{tag}-bin-win-cpu-x64.zip"),
            browser_download_url: format!("https://example.org/{tag}.zip"),
            size: 42,
        }],
    }
}

#[test]
fn fetched_list_is_read_back_from_the_cache_within_a_day() {
    let fetched: Result<Vec<Release>, String> = Ok(vec![release("b20000"), release("b19999")]);
    let cache = cache_to_write(&fetched, 1_000).expect("a successful request is cached");
    assert_eq!(cache.fetched_at, 1_000);
    assert_eq!(cache.releases, fetched.clone().unwrap());

    let again = cache_to_write(&fetched, 1_000).unwrap();
    let read = cached_releases(false, Some(again), 1_000 + RELEASES_CACHE_AGE_SECS - 1);
    assert_eq!(read, Some(fetched.clone().unwrap()));

    let again = cache_to_write(&fetched, 1_000).unwrap();
    assert_eq!(cached_releases(false, Some(again), 1_000 + RELEASES_CACHE_AGE_SECS), None);
    let again = cache_to_write(&fetched, 1_000).unwrap();
    assert_eq!(cached_releases(true, Some(again), 1_000), None);
    assert_eq!(cached_releases(false, None, 1_000), None);
}

#[test]
fn failed_request_writes_no_cache() {
    let failed: Result<Vec<Release>, String> = Err("сеть недоступна".into());
    assert!(cache_to_write(&failed, 1_000).is_none());
}
