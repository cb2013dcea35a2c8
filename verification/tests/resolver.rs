use wenget::errors::WenError;
use wenget::glob::glob_match;
use wenget::manifest::{
    BinaryAsset, CachedPackage, InstalledEntry, InstalledManifest, InstalledPackage,
    ManifestCache, Package, PackageSource, PlatformEntry,
};
use wenget::package_resolver::{
    normalize_github_url, upgrade_candidate, PackageInput, PackageResolver,
};
use wenget::providers::SourceProvider;

fn sample_package(name: &str, repo: &str) -> Package {
    Package {
        name: name.to_string(),
        repo: repo.to_string(),
        description: format!("{} description", name),
        homepage: None,
        license: Some("MIT".to_string()),
        platforms: vec![PlatformEntry {
            id: "linux-x64".to_string(),
            asset: BinaryAsset {
                url: format!("https://example.com/{}-linux-x64.tar.gz", name),
                size: 1024,
            },
        }],
    }
}

fn installed_record(version: &str, source: PackageSource) -> InstalledPackage {
    InstalledPackage {
        version: version.to_string(),
        platform: "linux-x64".to_string(),
        installed_at: 0,
        install_path: "/tmp/apps".to_string(),
        files: vec!["bin/tool".to_string()],
        source,
        description: "a tool".to_string(),
    }
}

/// A provider that answers every fetch with a package named after the URL's
/// last path segment.
struct FakeProvider;

impl SourceProvider for FakeProvider {
    fn fetch_package(&self, url: &str) -> Result<Package, WenError> {
        let name = url.rsplit('/').next().unwrap_or("fetched").to_string();
        Ok(sample_package(&name, url))
    }

    fn fetch_latest_version(&self, _repo_url: &str) -> Result<String, WenError> {
        Ok("2.0.0".to_string())
    }

    fn name(&self) -> &str {
        "fake"
    }
}

/// A provider with no network.
struct OfflineProvider;

impl SourceProvider for OfflineProvider {
    fn fetch_package(&self, _url: &str) -> Result<Package, WenError> {
        Err(WenError::NetworkError)
    }

    fn fetch_latest_version(&self, _repo_url: &str) -> Result<String, WenError> {
        Err(WenError::NetworkError)
    }

    fn name(&self) -> &str {
        "offline"
    }
}

fn bucket_cache(names: &[&str]) -> ManifestCache {
    let mut packages = Vec::new();
    for name in names {
        packages.push(CachedPackage {
            package: sample_package(name, &format!("https://github.com/u/{}", name)),
            source: PackageSource::Bucket { name: "main".to_string() },
        });
    }
    ManifestCache { packages }
}

#[test]
fn test_parse_package_input() {
    assert!(matches!(
        PackageInput::parse("ripgrep"),
        PackageInput::CacheName(_)
    ));
    assert!(matches!(
        PackageInput::parse("https://github.com/user/repo"),
        PackageInput::DirectUrl(_)
    ));
    assert!(matches!(
        PackageInput::parse("github.com/user/repo"),
        PackageInput::DirectUrl(_)
    ));
}

#[test]
fn test_normalize_github_url() {
    assert_eq!(
        normalize_github_url("github.com/user/repo"),
        "https://github.com/user/repo"
    );
    assert_eq!(
        normalize_github_url("https://github.com/user/repo"),
        "https://github.com/user/repo"
    );
}

#[test]
fn test_glob_match() {
    assert!(glob_match("ripgrep", "ripgrep"));
    assert!(glob_match("ripgrep", "rip*"));
    assert!(glob_match("ripgrep", "*grep"));
    assert!(glob_match("ripgrep", "r*p*p"));
    assert!(glob_match("ripgrep", "*"));

    assert!(!glob_match("ripgrep", "rip"));
    assert!(!glob_match("ripgrep", "grep"));
    assert!(!glob_match("ripgrep", "bat*"));
}

#[test]
fn test_glob_without_wildcard_is_equality() {
    assert!(glob_match("bat", "bat"));
    assert!(!glob_match("bat", "cat"));
    assert!(!glob_match("bat", "ba"));
    assert!(!glob_match("", "bat"));
    assert!(glob_match("", ""));
}

#[test]
fn test_glob_star_matches_everything() {
    assert!(glob_match("", "*"));
    assert!(glob_match("a", "*"));
    assert!(glob_match("anything at all", "*"));
    assert!(glob_match("ripgrep", "**"));
}

#[test]
fn test_parse_results_exactly() {
    match PackageInput::parse("ripgrep") {
        PackageInput::CacheName(n) => assert_eq!(n, "ripgrep"),
        PackageInput::DirectUrl(_) => panic!("classified as URL"),
    }
    match PackageInput::parse("https://github.com/u/r") {
        PackageInput::DirectUrl(u) => assert_eq!(u, "https://github.com/u/r"),
        PackageInput::CacheName(_) => panic!("classified as cache name"),
    }
    match PackageInput::parse("github.com/u/r") {
        PackageInput::DirectUrl(u) => assert_eq!(u, "https://github.com/u/r"),
        PackageInput::CacheName(_) => panic!("classified as cache name"),
    }
}

#[test]
fn test_resolve_single_bucket_hit() {
    let resolver = PackageResolver::new(
        bucket_cache(&["ripgrep", "bat"]),
        InstalledManifest::new(),
        FakeProvider,
    );
    let resolved = resolver
        .resolve(&PackageInput::parse("ripgrep"))
        .unwrap();
    assert_eq!(resolved.len(), 1);
    assert_eq!(resolved[0].package.name, "ripgrep");
    match &resolved[0].source {
        PackageSource::Bucket { name } => assert_eq!(name, "main"),
        PackageSource::DirectRepo { .. } => panic!("expected bucket provenance"),
    }
}

#[test]
fn test_resolve_glob_hits_all_matches() {
    let resolver = PackageResolver::new(
        bucket_cache(&["ripgrep", "riptide", "bat"]),
        InstalledManifest::new(),
        FakeProvider,
    );
    let resolved = resolver.resolve(&PackageInput::parse("rip*")).unwrap();
    assert_eq!(resolved.len(), 2);
    assert_eq!(resolved[0].package.name, "ripgrep");
    assert_eq!(resolved[1].package.name, "riptide");
}

#[test]
fn test_resolve_direct_url_never_touches_cache() {
    // The cache holds a package of the same name; a URL input must ignore
    // it and carry direct-repo provenance.
    let resolver = PackageResolver::new(
        bucket_cache(&["ripgrep"]),
        InstalledManifest::new(),
        FakeProvider,
    );
    let resolved = resolver
        .resolve(&PackageInput::parse("https://github.com/u/ripgrep"))
        .unwrap();
    assert_eq!(resolved.len(), 1);
    match &resolved[0].source {
        PackageSource::DirectRepo { url } => assert_eq!(url, "https://github.com/u/ripgrep"),
        PackageSource::Bucket { .. } => panic!("expected direct-repo provenance"),
    }
}

#[test]
fn test_resolve_falls_back_to_installed_direct_repo() {
    let mut installed = InstalledManifest::new();
    installed.upsert_package(
        "tool".to_string(),
        installed_record(
            "1.0.0",
            PackageSource::DirectRepo { url: "https://github.com/u/tool".to_string() },
        ),
    );
    let resolver = PackageResolver::new(bucket_cache(&[]), installed, FakeProvider);
    let resolved = resolver.resolve(&PackageInput::parse("tool")).unwrap();
    assert_eq!(resolved.len(), 1);
    // Re-resolved live from the stored URL.
    match &resolved[0].source {
        PackageSource::DirectRepo { url } => assert_eq!(url, "https://github.com/u/tool"),
        PackageSource::Bucket { .. } => panic!("expected direct-repo provenance"),
    }
    assert_eq!(resolved[0].package.repo, "https://github.com/u/tool");
}

#[test]
fn test_resolve_not_found() {
    let resolver = PackageResolver::new(
        bucket_cache(&["bat"]),
        InstalledManifest::new(),
        FakeProvider,
    );
    let err = resolver
        .resolve(&PackageInput::parse("ripgrep"))
        .unwrap_err();
    assert_eq!(err, WenError::NotFound);
}

#[test]
fn test_resolve_glob_never_uses_installed_fallback() {
    let mut installed = InstalledManifest::new();
    installed.upsert_package(
        "tool".to_string(),
        installed_record(
            "1.0.0",
            PackageSource::DirectRepo { url: "https://github.com/u/tool".to_string() },
        ),
    );
    let resolver = PackageResolver::new(bucket_cache(&[]), installed, FakeProvider);
    let err = resolver.resolve(&PackageInput::parse("tool*")).unwrap_err();
    assert_eq!(err, WenError::NotFound);
}

#[test]
fn test_resolve_bucket_provenance_has_no_fallback() {
    // Installed, but from a bucket: a cache miss stays NotFound.
    let mut installed = InstalledManifest::new();
    installed.upsert_package(
        "tool".to_string(),
        installed_record("1.0.0", PackageSource::Bucket { name: "main".to_string() }),
    );
    let resolver = PackageResolver::new(bucket_cache(&[]), installed, FakeProvider);
    let err = resolver.resolve(&PackageInput::parse("tool")).unwrap_err();
    assert_eq!(err, WenError::NotFound);
}

#[test]
fn test_resolve_propagates_fetch_failure() {
    let resolver = PackageResolver::new(
        bucket_cache(&[]),
        InstalledManifest::new(),
        OfflineProvider,
    );
    let err = resolver
        .resolve(&PackageInput::parse("https://github.com/u/r"))
        .unwrap_err();
    assert_eq!(err, WenError::NetworkError);
}

#[test]
fn test_find_upgradeable_reports_version_changes() {
    let mut installed = InstalledManifest::new();
    installed.upsert_package(
        "old-tool".to_string(),
        installed_record(
            "1.0.0",
            PackageSource::DirectRepo { url: "https://github.com/u/old-tool".to_string() },
        ),
    );
    installed.upsert_package(
        "current-tool".to_string(),
        installed_record(
            "2.0.0",
            PackageSource::DirectRepo { url: "https://github.com/u/current-tool".to_string() },
        ),
    );
    let resolver = PackageResolver::new(bucket_cache(&[]), installed, FakeProvider);
    let upgradeable = resolver.find_upgradeable();
    assert_eq!(upgradeable.len(), 1);
    assert_eq!(upgradeable[0].name, "old-tool");
    assert_eq!(upgradeable[0].current, "1.0.0");
    assert_eq!(upgradeable[0].latest, "2.0.0");
}

#[test]
fn test_upgrade_candidate_rows() {
    let entry = InstalledEntry {
        name: "tool".to_string(),
        package: installed_record(
            "1.0.0",
            PackageSource::DirectRepo { url: "https://github.com/u/tool".to_string() },
        ),
    };
    // Same version: no row.
    assert!(upgrade_candidate(&entry, "1.0.0".to_string()).is_none());
    // Different version: exactly this row.
    let row = upgrade_candidate(&entry, "2.0.0".to_string()).unwrap();
    assert_eq!(row.name, "tool");
    assert_eq!(row.current, "1.0.0");
    assert_eq!(row.latest, "2.0.0");
}

#[test]
fn test_find_upgradeable_bucket_provenance_via_cache() {
    // A bucket-source package whose name has a cache entry is checked
    // against that entry's repository; one without is skipped.
    let mut installed = InstalledManifest::new();
    installed.upsert_package(
        "ripgrep".to_string(),
        installed_record("1.0.0", PackageSource::Bucket { name: "main".to_string() }),
    );
    installed.upsert_package(
        "vanished".to_string(),
        installed_record("1.0.0", PackageSource::Bucket { name: "main".to_string() }),
    );
    let resolver = PackageResolver::new(bucket_cache(&["ripgrep"]), installed, FakeProvider);
    let upgradeable = resolver.find_upgradeable();
    assert_eq!(upgradeable.len(), 1);
    assert_eq!(upgradeable[0].name, "ripgrep");
    assert_eq!(upgradeable[0].current, "1.0.0");
    assert_eq!(upgradeable[0].latest, "2.0.0");
}

#[test]
fn test_find_upgradeable_offline_returns_empty() {
    // A failing version lookup skips the package rather than failing the
    // whole scan.
    let mut installed = InstalledManifest::new();
    installed.upsert_package(
        "tool".to_string(),
        installed_record(
            "1.0.0",
            PackageSource::DirectRepo { url: "https://github.com/u/tool".to_string() },
        ),
    );
    let resolver = PackageResolver::new(bucket_cache(&[]), installed, OfflineProvider);
    assert!(resolver.find_upgradeable().is_empty());
}

#[test]
fn test_fetch_latest_version_delegates_to_provider() {
    let resolver = PackageResolver::new(
        bucket_cache(&[]),
        InstalledManifest::new(),
        FakeProvider,
    );
    assert_eq!(
        resolver.fetch_latest_version("https://github.com/u/r").unwrap(),
        "2.0.0"
    );
}
