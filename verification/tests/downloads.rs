//! Archives, checkouts and what is kept of them.
use sha2::{Digest, Sha256};

use sonata::cache::{fresh_content_sha256, metadata_for_content, CacheMetadata, RepoCache};
use sonata::downloader::{
    archive_addresses, archive_step, branch_of, checkout_references, expected_checksum, find_zip_common_prefix, is_commit, path_options,
    place_entry, place_zip_entry, read_head, source_step, ArchiveExtractor, ArchiveState, ArchiveStep, ArchiveType,
    DownloadConfig, GitCredential, GitDownloader, GitOffer, Origin, PathStrategy, Placement,
    SourceStep,
};
use sonata::http::Duration;
use sonata::json::Json;
use sonata::package::{Dist, Package, Source};

fn git_source() -> Option<Source> {
    Some(Source {
        source_type: "git".to_string(),
        url: "https://github.com/vendor/package.git".to_string(),
        reference: "abc123".to_string(),
        mirrors: vec![],
    })
}

fn names(v: &[&str]) -> Vec<String> {
    v.iter().map(|s| s.to_string()).collect()
}

#[test]
fn test_archive_type_from_path() {
    assert_eq!(ArchiveType::from_path("package.zip"), Some(ArchiveType::Zip));
    assert_eq!(ArchiveType::from_path("package.tar.gz"), Some(ArchiveType::TarGz));
    assert_eq!(ArchiveType::from_path("package.tgz"), Some(ArchiveType::TarGz));
    assert_eq!(ArchiveType::from_path("package.tar.bz2"), Some(ArchiveType::TarBz2));
    assert_eq!(ArchiveType::from_path("package.tar"), Some(ArchiveType::Tar));
    assert_eq!(ArchiveType::from_path("package.txt"), None);
}

#[test]
fn test_archive_type_from_content_type() {
    assert_eq!(
        ArchiveType::from_content_type("application/zip"),
        Some(ArchiveType::Zip)
    );
    assert_eq!(
        ArchiveType::from_content_type("application/gzip"),
        Some(ArchiveType::TarGz)
    );
    assert_eq!(
        ArchiveType::from_content_type("application/x-tar"),
        Some(ArchiveType::Tar)
    );
}

#[test]
fn archives_are_known_by_their_names() {
    assert_eq!(ArchiveExtractor::archive_type("A.ZIP").unwrap(), ArchiveType::Zip);
    assert_eq!(
        ArchiveExtractor::archive_type("a.rar").unwrap_err().message(),
        "Installation failed: Unknown archive type: a.rar"
    );
}

#[test]
fn a_shared_directory_is_found() {
    let inside = names(&["pkg-1/", "pkg-1/src/A.php", "pkg-1/README"]);
    assert_eq!(find_zip_common_prefix(&inside), Some("pkg-1/".to_string()));
    let outside = names(&["pkg-1/src/A.php", "README"]);
    assert_eq!(find_zip_common_prefix(&outside), None);
    assert_eq!(find_zip_common_prefix(&vec![]), None);
}

#[test]
fn entries_stay_below_their_directory() {
    match place_entry(&names(&["pkg-1", "src", "A.php"]), 1, "/dest") {
        Placement::Place(p) => assert_eq!(p, "/dest/src/A.php"),
        other => panic!("{:?}", other),
    }
    match place_entry(&names(&["pkg-1", "..", "..", "A.php"]), 1, "/dest") {
        Placement::Refuse(p) => assert_eq!(p, "../../A.php"),
        other => panic!("{:?}", other),
    }
    assert!(matches!(place_entry(&names(&["pkg-1"]), 1, "/dest"), Placement::Skip));
}

#[test]
fn test_git_downloader_creation() {
    let downloader = GitDownloader::new();
    assert!(downloader.ssh_key.is_none());
    assert!(downloader.use_ssh_agent);
}

#[test]
fn test_git_downloader_with_ssh_key() {
    let downloader = GitDownloader::new().with_ssh_key("/path/to/key");
    assert_eq!(downloader.ssh_key, Some("/path/to/key".to_string()));
}

#[test]
fn a_key_comes_before_the_agent() {
    let offer = GitOffer {
        ssh: true,
        password: true,
        default: true,
        has_ed25519: true,
        has_rsa: true,
        has_user_and_password: true,
    };
    assert_eq!(GitDownloader::new().credential(offer), GitCredential::Agent);
    assert_eq!(
        GitDownloader::new().with_ssh_key("/k").credential(offer),
        GitCredential::Key
    );
    let plain = GitOffer { ssh: false, ..offer };
    assert_eq!(GitDownloader::new().credential(plain), GitCredential::UserAndPassword);
}

#[test]
fn tags_are_tried_before_branches() {
    assert_eq!(
        checkout_references("1.0"),
        ("refs/tags/1.0".to_string(), "refs/remotes/origin/1.0".to_string())
    );
}

#[test]
fn head_names_a_commit_or_a_file() {
    assert_eq!(read_head("0123456789abcdef\n"), Ok("0123456".to_string()));
    assert_eq!(read_head("ref: refs/heads/main\n"), Err("refs/heads/main".to_string()));
}

#[test]
fn test_download_config_default() {
    let config = DownloadConfig::default();
    assert!(config.prefer_dist);
    assert!(!config.prefer_source);
}

#[test]
fn test_package_path() {
    let config = DownloadConfig {
        vendor_dir: "/app/vendor".to_string(),
        ..Default::default()
    };
    let package = Package::new("vendor/package", "1.0.0");
    assert_eq!(config.package_path(&package), "/app/vendor/vendor/package");
}

#[test]
fn test_cache_path() {
    let config = DownloadConfig {
        cache_dir: "/cache".to_string(),
        ..Default::default()
    };
    let package = Package::new("vendor/package", "1.0.0");
    assert_eq!(
        config.cache_path(&package, "zip"),
        "/cache/files/vendor/package/vendor-package-1.0.0.zip"
    );
}

#[test]
fn test_should_use_source_dev() {
    let mut package = Package::new("vendor/package", "dev-main");
    package.source = git_source();
    assert!(DownloadConfig::default().should_use_source(&package));
}

#[test]
fn test_should_use_source_prefer_source() {
    let config = DownloadConfig {
        prefer_source: true,
        prefer_dist: false,
        ..Default::default()
    };
    let mut package = Package::new("vendor/package", "1.0.0");
    package.source = git_source();
    assert!(config.should_use_source(&package));
}

#[test]
fn a_package_that_is_anywhere_is_got() {
    let config = DownloadConfig::default();
    let mut package = Package::new("vendor/package", "1.0.0");
    assert_eq!(config.origin(&package), Origin::Nowhere);
    package.source = git_source();
    assert_eq!(config.origin(&package), Origin::Source);
    package.dist = Some(Dist {
        dist_type: "zip".to_string(),
        url: "https://example.org/a.zip".to_string(),
        reference: None,
        shasum: Some("sum".to_string()),
        sha256: Some(String::new()),
        mirrors: vec![],
        transport_options: None,
    });
    assert_eq!(config.origin(&package), Origin::Dist);
    assert_eq!(expected_checksum(package.dist.as_ref().unwrap()), Some("sum"));
}

#[test]
fn archives_that_do_not_match_stay_packed() {
    assert_eq!(archive_step(ArchiveState::Absent), ArchiveStep::Download);
    assert_eq!(archive_step(ArchiveState::Kept(Some(false))), ArchiveStep::Discard);
    assert_eq!(
        archive_step(ArchiveState::Kept(None)),
        ArchiveStep::Unpack { from_cache: true }
    );
    assert_eq!(archive_step(ArchiveState::Downloaded(Some(false))), ArchiveStep::Mismatch);
    assert_eq!(
        archive_step(ArchiveState::Downloaded(Some(true))),
        ArchiveStep::Unpack { from_cache: false }
    );
    assert_eq!(archive_step(ArchiveState::Failed), ArchiveStep::NextAddress);
}

#[test]
fn local_directories_are_linked_or_mirrored() {
    let options = Some(Json::Object(vec![
        ("symlink".to_string(), Json::Bool(false)),
        ("relative".to_string(), Json::Bool(true)),
    ]));
    assert_eq!(path_options(&options), (Some(PathStrategy::Mirror), true));
    assert_eq!(path_options(&None), (None, false));
}

#[test]
fn test_repo_cache_new() {
    let cache = RepoCache::new("/tmp/cache", "https://repo.packagist.org");

    assert!(cache.is_enabled());
    assert!(!cache.is_read_only());
    assert_eq!(cache.path(), "/tmp/cache/repo/repo-packagist-org");
}

#[test]
fn test_content_hash_requires_matching_file_identity() {
    let none = CacheMetadata::default();
    let year = Duration::from_secs(31536000);
    let now = Some(Duration::from_secs(0));

    let metadata = metadata_for_content(&none, b"original", 8, Some(1000));
    let digest: [u8; 32] = Sha256::digest(b"original").into();
    assert_eq!(
        fresh_content_sha256(&metadata, 8, Some(1000), now, year),
        Some(digest)
    );

    assert!(fresh_content_sha256(&metadata, 15, Some(2000), now, year).is_none());

    let metadata = metadata_for_content(&none, b"changed content", 15, Some(2000));
    let digest: [u8; 32] = Sha256::digest(b"changed content").into();
    assert_eq!(
        fresh_content_sha256(&metadata, 15, Some(2000), now, year),
        Some(digest)
    );
    assert!(fresh_content_sha256(&metadata, 15, Some(2000), now, Duration::from_secs(0)).is_none());
}

#[test]
fn test_sanitize_url() {
    assert_eq!(
        RepoCache::sanitize_url("https://repo.packagist.org"),
        "repo-packagist-org"
    );
    assert_eq!(
        RepoCache::sanitize_url("https://packages.example.com/composer"),
        "packages-example-com-composer"
    );
    assert_eq!(
        RepoCache::sanitize_url("http://PACKAGES.example.com/a--b?x=1"),
        "packages-example-com-a--b-x-1"
    );
    assert_eq!(RepoCache::sanitize_url("https://café.example"), "caf--example");
}

#[test]
fn addresses_are_tried_in_order() {
    let mut source = git_source().unwrap();
    source.mirrors = names(&["https://a.org/p.git", "https://b.org/p.git"]);
    let first = "https://github.com/vendor/package.git".to_string();
    assert_eq!(source_step(&source, 0), SourceStep::CloneFrom(first));
    assert_eq!(
        source_step(&source, 1),
        SourceStep::CloneFrom("https://a.org/p.git".to_string())
    );
    assert_eq!(
        source_step(&source, 2),
        SourceStep::CloneFrom("https://b.org/p.git".to_string())
    );
    assert_eq!(
        source_step(&source, 3),
        SourceStep::OutOfAddresses { reason: "Git clone failed for all URLs".to_string() }
    );
    source.source_type = "svn".to_string();
    assert_eq!(
        source_step(&source, 0),
        SourceStep::Unsupported { reason: "Unsupported source type: svn".to_string() }
    );

    let dist = Dist {
        dist_type: "zip".to_string(),
        url: "https://a.org/p.zip".to_string(),
        reference: None,
        shasum: None,
        sha256: None,
        mirrors: names(&["https://b.org/p.zip"]),
        transport_options: None,
    };
    assert_eq!(
        archive_addresses(&dist),
        names(&["https://a.org/p.zip", "https://b.org/p.zip"])
    );
}

#[test]
fn zip_entries_lose_the_shared_directory() {
    let parts = names(&["pkg-1", "src", "A.php"]);
    let place = |names: Option<&Vec<String>>, shared: Option<&str>| {
        place_zip_entry("the/name", names, shared, "/out")
    };
    assert!(matches!(place(Some(&parts), Some("pkg-1/")), Placement::Place(p) if p == "/out/src/A.php"));
    assert!(matches!(place(Some(&parts), Some("pkg/")), Placement::Place(p) if p == "/out/pkg-1/src/A.php"));
    assert!(matches!(place(Some(&parts), None), Placement::Place(p) if p == "/out/pkg-1/src/A.php"));
    assert!(matches!(place(Some(&names(&["pkg-1"])), Some("pkg-1/")), Placement::Skip));
    assert!(matches!(place(Some(&names(&[])), None), Placement::Skip));
    assert!(matches!(place(None, Some("pkg-1/")), Placement::Refuse(p) if p == "the/name"));
}

#[test]
fn commits_are_told_from_names() {
    assert!(is_commit("abc1234"));
    assert!(is_commit("ABCDEF0123456789abcdef0123456789abcdef01"));
    assert!(!is_commit("abc123"));
    assert!(!is_commit(""));
    assert!(!is_commit("abc123g"));
    assert!(!is_commit("abcdef0\u{e9}"));
    assert!(!is_commit("abcdef0123456789abcdef0123456789abcdef012"));
    assert_eq!(branch_of("refs/heads/feature/x"), Some("feature/x"));
    assert_eq!(branch_of("refs/tags/v1"), None);
}

#[test]
fn what_is_fetched_needs_no_password() {
    let plain = GitDownloader::new();
    assert_eq!(plain.update_credential(true), GitCredential::Agent);
    assert_eq!(plain.update_credential(false), GitCredential::Default);
    let keyed = GitDownloader::new().with_ssh_key("/k");
    assert_eq!(keyed.update_credential(true), GitCredential::Key);
    assert_eq!(
        GitDownloader::new().without_ssh_agent().update_credential(true),
        GitCredential::Default
    );
}
