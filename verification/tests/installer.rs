use wenget::batch::{plan_action, summarize, BatchSummary, InstallDecision};
use wenget::errors::WenError;
use wenget::installer::{filename_from_url, find_executable, InstallJob, InstallStage, InstallState};
use wenget::manifest::{
    BinaryAsset, InstalledManifest, InstalledPackage, Package, PackageSource, PlatformEntry,
};
use wenget::paths::WenPaths;
use wenget::platform::{select_platform, supports_platform};

fn asset(url: &str) -> BinaryAsset {
    BinaryAsset { url: url.to_string(), size: 2048 }
}

fn package_with_platforms(name: &str, ids: &[&str]) -> Package {
    let mut platforms = Vec::new();
    for id in ids {
        platforms.push(PlatformEntry {
            id: id.to_string(),
            asset: asset(&format!("https://example.com/{}-{}.tar.gz", name, id)),
        });
    }
    Package {
        name: name.to_string(),
        repo: format!("https://github.com/u/{}", name),
        description: String::new(),
        homepage: None,
        license: None,
        platforms,
    }
}

fn installed_record(version: &str) -> InstalledPackage {
    InstalledPackage {
        version: version.to_string(),
        platform: "linux-x64".to_string(),
        installed_at: 0,
        install_path: "/tmp/apps/x".to_string(),
        files: vec![],
        source: PackageSource::Bucket { name: "main".to_string() },
        description: String::new(),
    }
}

#[test]
fn test_platform_selection_priority_order() {
    let pkg = package_with_platforms("tool", &["linux-x64", "linux-arm64"]);
    // The first host identifier present in the map wins, even when a later
    // one is present too.
    let ids = vec![
        "linux-x64-musl".to_string(),
        "linux-arm64".to_string(),
        "linux-x64".to_string(),
    ];
    let (id, bin) = select_platform(&ids, &pkg).unwrap();
    assert_eq!(id, "linux-arm64");
    assert_eq!(bin.url, "https://example.com/tool-linux-arm64.tar.gz");
    assert!(supports_platform(&ids, &pkg));
}

#[test]
fn test_platform_selection_empty_intersection() {
    let pkg = package_with_platforms("tool", &["darwin-arm64"]);
    let ids = vec!["linux-x64".to_string(), "linux".to_string()];
    let err = select_platform(&ids, &pkg).unwrap_err();
    assert_eq!(err, WenError::UnsupportedPlatform);
    assert!(!supports_platform(&ids, &pkg));
}

#[test]
fn test_filename_from_url() {
    assert_eq!(
        filename_from_url("https://example.com/a/b/foo.tar.gz").unwrap(),
        "foo.tar.gz"
    );
    assert_eq!(filename_from_url("plainname").unwrap(), "plainname");
    assert_eq!(
        filename_from_url("https://example.com/dir/").unwrap_err(),
        WenError::InputError
    );
    assert_eq!(filename_from_url("").unwrap_err(), WenError::InputError);
}

#[test]
fn test_find_executable_matches_base_name() {
    let files = vec![
        "README.md".to_string(),
        "doc/foo.txt".to_string(),
        "bin/foo".to_string(),
        "foo".to_string(),
    ];
    // First match wins.
    assert_eq!(find_executable(&files, "foo").unwrap(), "bin/foo");
    let windows_files = vec!["foo.exe".to_string()];
    assert_eq!(find_executable(&windows_files, "foo").unwrap(), "foo.exe");
    assert!(find_executable(&files, "bar").is_none());
}

#[test]
fn test_pipeline_end_to_end() {
    let pkg = package_with_platforms("foo", &["linux-x64"]);
    let ids = vec!["linux-x64".to_string()];
    assert!(supports_platform(&ids, &pkg));
    let (platform_id, binary) = select_platform(&ids, &pkg).unwrap();
    assert_eq!(platform_id, "linux-x64");

    let mut job = InstallJob::new(pkg.name.clone(), platform_id, binary);
    assert_eq!(job.state, InstallState::Selected);

    job.begin_download();
    assert_eq!(job.state, InstallState::Downloading);
    assert_eq!(job.dest_filename, "foo-linux-x64.tar.gz");

    job.finish_download(Ok(()));
    assert_eq!(job.state, InstallState::Downloaded);

    job.begin_extract();
    assert_eq!(job.state, InstallState::Extracting);

    let extracted = vec!["bin/foo".to_string(), "LICENSE".to_string()];
    job.finish_extract(Ok(extracted.clone()));
    assert_eq!(job.executable.as_deref(), Some("bin/foo"));

    job.confirm_executable(true);
    assert_eq!(job.state, InstallState::ExecutableLocated);

    job.finish_launcher(Ok(()));
    assert_eq!(job.state, InstallState::LauncherCreated);

    job.finish_cleanup();
    assert_eq!(job.state, InstallState::CleanedUp);

    let record = job.installed_record(
        "1.0.0".to_string(),
        "/tmp/wen/apps/foo".to_string(),
        PackageSource::Bucket { name: "main".to_string() },
        "a finder".to_string(),
    );
    assert_eq!(record.platform, "linux-x64");
    assert_eq!(record.files, extracted);
    assert_eq!(record.version, "1.0.0");

    // The launcher for "foo" has a well-defined place under the root.
    let paths = WenPaths::from_root("/tmp/wen".to_string());
    assert_eq!(paths.bin_shim_path("foo"), "/tmp/wen/bin/foo");
}

#[test]
fn test_pipeline_download_failure() {
    let mut job = InstallJob::new(
        "foo".to_string(),
        "linux-x64".to_string(),
        asset("https://example.com/foo.tar.gz"),
    );
    job.begin_download();
    job.finish_download(Err(WenError::NetworkError));
    assert_eq!(
        job.state,
        InstallState::Failed { stage: InstallStage::Download, cause: WenError::NetworkError }
    );
}

#[test]
fn test_pipeline_invalid_url() {
    let mut job = InstallJob::new(
        "foo".to_string(),
        "linux-x64".to_string(),
        asset("https://example.com/foo/"),
    );
    job.begin_download();
    assert_eq!(
        job.state,
        InstallState::Failed { stage: InstallStage::Download, cause: WenError::InputError }
    );
}

#[test]
fn test_pipeline_extract_failure() {
    let mut job = InstallJob::new(
        "foo".to_string(),
        "linux-x64".to_string(),
        asset("https://example.com/foo.tar.gz"),
    );
    job.begin_download();
    job.finish_download(Ok(()));
    job.begin_extract();
    job.finish_extract(Err(WenError::IOError));
    assert_eq!(
        job.state,
        InstallState::Failed { stage: InstallStage::Extract, cause: WenError::IOError }
    );
}

#[test]
fn test_pipeline_executable_not_found() {
    let mut job = InstallJob::new(
        "foo".to_string(),
        "linux-x64".to_string(),
        asset("https://example.com/foo.tar.gz"),
    );
    job.begin_download();
    job.finish_download(Ok(()));
    job.begin_extract();
    job.finish_extract(Ok(vec!["README.md".to_string()]));
    assert_eq!(
        job.state,
        InstallState::Failed {
            stage: InstallStage::LocateExecutable,
            cause: WenError::ExecutableNotFound,
        }
    );
}

#[test]
fn test_pipeline_executable_missing_on_disk() {
    let mut job = InstallJob::new(
        "foo".to_string(),
        "linux-x64".to_string(),
        asset("https://example.com/foo.tar.gz"),
    );
    job.begin_download();
    job.finish_download(Ok(()));
    job.begin_extract();
    job.finish_extract(Ok(vec!["foo".to_string()]));
    job.confirm_executable(false);
    assert_eq!(
        job.state,
        InstallState::Failed {
            stage: InstallStage::LocateExecutable,
            cause: WenError::ExecutableNotFound,
        }
    );
}

#[test]
fn test_batch_partial_failure_isolation() {
    // Three packages; the second fails. The first and third are installed
    // and recorded; the counters show two successes, one failure.
    let mut installed = InstalledManifest::new();
    let outcomes = vec![true, false, true];

    installed.upsert_package("first".to_string(), installed_record("1.0.0"));
    // Second package fails: nothing recorded for it.
    installed.upsert_package("third".to_string(), installed_record("3.0.0"));

    let summary = summarize(&outcomes);
    assert_eq!(summary.succeeded, 2);
    assert_eq!(summary.failed, 1);

    assert!(installed.is_installed("first"));
    assert!(!installed.is_installed("second"));
    assert!(installed.is_installed("third"));
    assert_eq!(installed.get_package("third").unwrap().version, "3.0.0");
}

#[test]
fn test_batch_counters_step_by_step() {
    let mut summary = BatchSummary::new();
    summary.record(true);
    summary.record(false);
    summary.record(true);
    assert_eq!(summary.succeeded, 2);
    assert_eq!(summary.failed, 1);
}

#[test]
fn test_plan_action_skips_current_version() {
    // Already at the latest version: report, download nothing.
    let current = installed_record("2.0.0");
    assert_eq!(
        plan_action(Some(&current), "2.0.0"),
        InstallDecision::AlreadyCurrent
    );
    let stale = installed_record("1.0.0");
    assert_eq!(plan_action(Some(&stale), "2.0.0"), InstallDecision::Upgrade);
    assert_eq!(plan_action(None, "2.0.0"), InstallDecision::Fresh);
}

#[test]
fn test_upsert_overwrites_same_name() {
    let mut installed = InstalledManifest::new();
    installed.upsert_package("tool".to_string(), installed_record("1.0.0"));
    installed.upsert_package("tool".to_string(), installed_record("2.0.0"));
    assert_eq!(installed.get_package("tool").unwrap().version, "2.0.0");
    assert!(installed.get_package("other").is_none());
}

#[test]
fn test_error_descriptions() {
    assert_eq!(WenError::NotFound.describe(), "no packages found");
    assert_eq!(WenError::UnsupportedPlatform.describe(), "unsupported platform");
}
