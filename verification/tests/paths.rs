use wenget::paths::WenPaths;

#[test]
fn test_paths_creation() {
    let paths = WenPaths::new().unwrap();
    assert!(paths.root().ends_with(".wenget"));
    assert!(paths.sources_json().ends_with("sources.json"));
    assert!(paths.installed_json().ends_with("installed.json"));
}

#[test]
fn test_app_paths() {
    let paths = WenPaths::new().unwrap();
    let app_dir = paths.app_dir("test");
    assert!(app_dir.ends_with("apps/test") || app_dir.ends_with("apps\\test"));

    let bin_dir = paths.app_bin_dir("test");
    assert!(bin_dir.ends_with("apps/test/bin") || bin_dir.ends_with("apps\\test\\bin"));
}

#[test]
fn test_executable_name() {
    assert_eq!(WenPaths::executable_name("test"), "test");
}

#[test]
fn test_bin_shim_path() {
    let paths = WenPaths::new().unwrap();
    let shim = paths.bin_shim_path("test");
    assert!(shim.ends_with("bin/test"));
}

#[test]
fn test_explicit_root() {
    let paths = WenPaths::from_root("/tmp/wentest".to_string());
    assert_eq!(paths.root(), "/tmp/wentest");
    assert_eq!(paths.sources_json(), "/tmp/wentest/sources.json");
    assert_eq!(paths.buckets_json(), "/tmp/wentest/buckets.json");
    assert_eq!(paths.manifest_cache_json(), "/tmp/wentest/manifest-cache.json");
    assert_eq!(paths.apps_dir(), "/tmp/wentest/apps");
    assert_eq!(paths.bin_dir(), "/tmp/wentest/bin");
    assert_eq!(paths.cache_dir(), "/tmp/wentest/cache");
    assert_eq!(paths.downloads_dir(), "/tmp/wentest/cache/downloads");
    assert_eq!(paths.bin_shim_path("rg"), "/tmp/wentest/bin/rg");
}
