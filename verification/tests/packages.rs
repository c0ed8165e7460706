//! Lock files, manifests and repositories.
use indexmap::IndexMap;

use sonata::composer::{Composer, ComposerBuilder};
use sonata::config::settings::Config;
use sonata::error::ComposerError;
use sonata::json::{same, Json};
use sonata::loader::{is_valid_package_name, validate_composer_json, LoadError};
use sonata::lock::{ComposerLock, LockDist, LockedPackage};
use sonata::package::Package;
use sonata::repositories::OptionsRead;
use sonata::schema::{
    is_packagist_disabled, ComposerJson, PathRepositoryOptions, Repositories, Repository,
    RepositoryOptions, SslOptions,
};

fn locked(name: &str, version: &str) -> LockedPackage {
    LockedPackage {
        name: name.to_string(),
        version: version.to_string(),
        package_type: "library".to_string(),
        ..Default::default()
    }
}

fn manifest() -> ComposerJson {
    ComposerJson {
        name: Some("test/package".to_string()),
        ..Default::default()
    }
}

#[test]
fn test_find_package() {
    let mut lock = ComposerLock::default();
    lock.packages.push(locked("vendor/prod", "1.0.0"));
    lock.packages_dev.push(locked("vendor/dev", "2.0.0"));

    assert!(lock.find_package("vendor/prod").is_some());
    assert!(lock.find_package("vendor/dev").is_some());
    assert!(lock.find_package("VENDOR/PROD").is_some());
    assert!(lock.find_package("nonexistent").is_none());

    assert!(!lock.is_dev_package("vendor/prod"));
    assert!(lock.is_dev_package("vendor/dev"));
    assert_eq!(lock.package_count(), 2);
    assert_eq!(lock.all_packages()[1].name, "vendor/dev");
}

#[test]
fn test_abandoned_package() {
    let mut packages = vec![locked("pkg1", "1.0"), locked("pkg2", "1.0"), locked("pkg3", "1.0")];
    packages[0].abandoned = Json::Bool(false);
    packages[1].abandoned = Json::Bool(true);
    packages[2].abandoned = Json::Text("new/package".to_string());

    assert!(!packages[0].is_abandoned());
    assert!(packages[1].is_abandoned());
    assert!(packages[2].is_abandoned());

    assert!(packages[0].abandoned_replacement().is_none());
    assert!(packages[1].abandoned_replacement().is_none());
    assert_eq!(packages[2].abandoned_replacement(), Some("new/package"));
}

#[test]
fn lock_write_equivalence_short_circuits_regular_changes() {
    let mut left = ComposerLock {
        content_hash: "content".to_string(),
        minimum_stability: "stable".to_string(),
        plugin_api_version: "2.9.0".to_string(),
        ..Default::default()
    };
    let mut package = locked("vendor/package", "1.0.0");
    package.require.insert("php".to_string(), "^8.2".to_string());
    left.packages.push(package);

    let mut right = left.clone();
    assert!(left.equivalent_for_write(&right));

    right.packages[0].version = "2.0.0".to_string();
    assert!(!left.equivalent_for_write(&right));

    right = left.clone();
    right.prefer_lowest = true;
    assert!(!left.equivalent_for_write(&right));
}

#[test]
fn lock_write_equivalence_matches_skipped_field_semantics() {
    let mut left = ComposerLock::default();
    let mut package = locked("vendor/package", "1.0.0");
    package.dist = Some(LockDist {
        dist_type: "zip".to_string(),
        url: "https://example.test/package.zip".to_string(),
        reference: Some("reference".to_string()),
        shasum: None,
    });
    left.packages.push(package);

    let mut right = left.clone();
    right.packages[0].dist.as_mut().unwrap().shasum = Some(String::new());
    right.packages[0].description = Some(String::new());
    right.packages[0].homepage = Some(String::new());
    right.packages[0].abandoned = Json::Bool(false);
    right.packages[0]
        .autoload
        .exclude_from_classmap
        .push("ignored-while-autoload-is-empty".to_string());
    assert!(left.equivalent_for_write(&right));

    right.packages[0]
        .autoload
        .psr4
        .insert("Vendor\\Package\\".to_string(), Json::Text("src".to_string()));
    assert!(!left.equivalent_for_write(&right));
}

#[test]
fn test_valid_package_name() {
    assert!(is_valid_package_name("vendor/package"));
    assert!(is_valid_package_name("my-vendor/my-package"));
    assert!(is_valid_package_name("vendor123/package456"));
    assert!(!is_valid_package_name("invalid"));
    assert!(!is_valid_package_name("Invalid/Package"));
    assert!(!is_valid_package_name("/package"));
    assert!(!is_valid_package_name("vendor/"));
}

#[test]
fn test_validate_composer_json() {
    let mut json = ComposerJson::default();
    json.name = Some("vendor/package".to_string());
    json.minimum_stability = Some("stable".to_string());

    assert!(validate_composer_json(&json).is_ok());

    json.name = Some("InvalidName".to_string());
    assert!(validate_composer_json(&json).is_err());
}

#[test]
fn every_fault_of_a_manifest_is_named() {
    let mut json = ComposerJson::default();
    json.name = Some("InvalidName".to_string());
    json.version = Some(String::new());
    json.minimum_stability = Some("perfect".to_string());
    assert_eq!(
        validate_composer_json(&json).unwrap_err(),
        vec![
            "Invalid package name 'InvalidName'. Must be lowercase and match vendor/package format",
            "Version cannot be empty if specified",
            "Invalid minimum-stability 'perfect'. Must be one of: [\"dev\", \"alpha\", \"beta\", \"rc\", \"stable\"]",
        ]
    );
    json.minimum_stability = Some("RC".to_string());
    assert_eq!(validate_composer_json(&json).unwrap_err().len(), 2);
}

#[test]
fn load_errors_tell_their_cause() {
    assert_eq!(LoadError::Io("gone".to_string()).message(), "Failed to read file: gone");
    assert_eq!(LoadError::Parse("eof".to_string()).message(), "Failed to parse JSON: eof");
    assert_eq!(
        LoadError::Validation("name".to_string()).message(),
        "Validation error: name"
    );
}

#[test]
fn test_builder_minimal() {
    let result = ComposerBuilder::new("/tmp/test".to_string())
        .with_composer_json(manifest())
        .build();

    assert!(result.is_ok());
    let composer = result.unwrap();
    assert_eq!(composer.working_dir, "/tmp/test");
    assert!(composer.packagist);
}

#[test]
fn test_builder_missing_composer_json() {
    let result = ComposerBuilder::new("/tmp/test".to_string()).build();

    assert!(result.is_err());
    let err = result.err().unwrap();
    assert!(err.message.contains("composer.json is required"));
}

#[test]
fn test_builder_with_dry_run() {
    let composer = ComposerBuilder::new("/tmp/test".to_string())
        .with_composer_json(manifest())
        .dry_run(true)
        .build()
        .unwrap();
    assert!(composer.install_config.dry_run);
}

#[test]
fn test_builder_with_no_dev() {
    let composer = ComposerBuilder::new("/tmp/test".to_string())
        .with_composer_json(manifest())
        .no_dev(true)
        .build()
        .unwrap();
    assert!(composer.install_config.no_dev);
}

#[test]
fn test_builder_prefer_source() {
    let composer = ComposerBuilder::new("/tmp/test".to_string())
        .with_composer_json(manifest())
        .prefer_source(true)
        .build()
        .unwrap();
    assert!(composer.install_config.prefer_source);
    assert!(!composer.install_config.prefer_dist);
}

#[test]
fn test_builder_prefer_dist() {
    let composer = ComposerBuilder::new("/tmp/test".to_string())
        .with_composer_json(manifest())
        .prefer_dist(true)
        .build()
        .unwrap();
    assert!(!composer.install_config.prefer_source);
    assert!(composer.install_config.prefer_dist);
}

#[test]
fn the_last_preference_counts() {
    let composer = ComposerBuilder::new("/tmp/test".to_string())
        .with_composer_json(manifest())
        .prefer_dist(true)
        .prefer_source(true)
        .build()
        .unwrap();
    assert!(composer.install_config.prefer_source);
    assert!(!composer.install_config.prefer_dist);
}

#[test]
fn test_builder_disable_packagist() {
    let composer = ComposerBuilder::new("/tmp/test".to_string())
        .with_composer_json(manifest())
        .disable_packagist(true)
        .build()
        .unwrap();

    assert!(!composer.packagist);
}

#[test]
fn test_builder_with_config() {
    let composer = ComposerBuilder::new("/tmp/test".to_string())
        .with_config(Config::with_base_dir("/tmp/test"))
        .with_composer_json(manifest())
        .build()
        .unwrap();

    assert_eq!(composer.config.base_dir(), Some("/tmp/test"));
    assert_eq!(composer.vendor_dir(), "/tmp/test/vendor");
    assert_eq!(composer.install_config.bin_dir, "/tmp/test/vendor/bin");
    assert_eq!(composer.install_config.cache_dir, "/tmp/test/.composer-rs/cache");
}

#[test]
fn test_builder_with_lock() {
    let composer = ComposerBuilder::new("/tmp/test".to_string())
        .with_composer_json(manifest())
        .with_composer_lock(Some(ComposerLock::default()))
        .build()
        .unwrap();

    assert!(composer.composer_lock.is_some());
}

#[test]
fn test_composer_builder_static_method() {
    let composer = Composer::builder("/tmp/test".to_string())
        .with_composer_json(manifest())
        .with_platform_packages(vec![Package::new("php", "8.3.1.0")])
        .build()
        .unwrap();

    assert_eq!(composer.working_dir, "/tmp/test");
    assert_eq!(composer.platform_packages.len(), 1);
}

#[test]
fn test_is_packagist_disabled_none() {
    assert!(!is_packagist_disabled(&Repositories::Absent));
}

#[test]
fn test_is_packagist_disabled_empty_array() {
    assert!(!is_packagist_disabled(&Repositories::Array(vec![])));
}

#[test]
fn test_is_packagist_disabled_array_with_disabled() {
    let repos = Repositories::Array(vec![Repository::Disabled(false)]);
    assert!(is_packagist_disabled(&repos));
}

#[test]
fn test_is_packagist_disabled_empty_object() {
    assert!(!is_packagist_disabled(&Repositories::Object(IndexMap::new())));
}

fn disabled_under(name: &str) -> Repositories {
    let mut map = IndexMap::new();
    map.insert(name.to_string(), Repository::Disabled(false));
    Repositories::Object(map)
}

#[test]
fn test_is_packagist_disabled_object_packagist_org_false() {
    assert!(is_packagist_disabled(&disabled_under("packagist.org")));
}

#[test]
fn test_is_packagist_disabled_object_packagist_false() {
    assert!(is_packagist_disabled(&disabled_under("packagist")));
}

#[test]
fn test_is_packagist_disabled_object_other_repo() {
    assert!(!is_packagist_disabled(&disabled_under("other-repo")));
}

fn object(entries: Vec<(&str, Json)>) -> Json {
    Json::Object(entries.into_iter().map(|(k, v)| (k.to_string(), v)).collect())
}

fn text(s: &str) -> Json {
    Json::Text(s.to_string())
}

fn defaults() -> OptionsRead {
    OptionsRead {
        remote: Ok(RepositoryOptions::default()),
        local: Ok(PathRepositoryOptions::default()),
    }
}

#[test]
fn written_repositories_are_read_back() {
    let options = RepositoryOptions {
        ssl: Some(SslOptions { verify_peer: Some(false) }),
    };
    let repository = Repository::Composer {
        url: "https://example.org".to_string(),
        options,
    };
    let value = repository.to_json();
    let expected = object(vec![
        ("type", text("composer")),
        ("url", text("https://example.org")),
        (
            "options",
            object(vec![("ssl", object(vec![("verify_peer", Json::Bool(false))]))]),
        ),
    ]);
    assert!(same(&value, &expected));
    let read = OptionsRead { remote: Ok(options), local: Ok(PathRepositoryOptions::default()) };
    match Repository::from_json(&value, &read).unwrap() {
        Repository::Composer { url, options } => {
            assert_eq!(url, "https://example.org");
            assert_eq!(options.ssl.unwrap().verify_peer, Some(false));
        }
        other => panic!("{:?}", other),
    }

    let named = Repository::NamedDisabled { name: "packagist.org".to_string(), disabled: false };
    match Repository::from_json(&named.to_json(), &defaults()).unwrap() {
        Repository::NamedDisabled { name, disabled } => {
            assert_eq!(name, "packagist.org");
            assert!(!disabled);
        }
        other => panic!("{:?}", other),
    }

    let path = Repository::Path {
        url: "../lib".to_string(),
        options: PathRepositoryOptions::default(),
    };
    assert!(same(
        &path.to_json(),
        &object(vec![("type", text("path")), ("url", text("../lib"))])
    ));
}

#[test]
fn what_is_no_repository_is_refused() {
    let refused = |value: Json| Repository::from_json(&value, &defaults()).unwrap_err().message;
    assert_eq!(refused(text("vcs")), "repository must be an object or boolean");
    assert_eq!(refused(object(vec![])), "repository type is required");
    assert_eq!(refused(object(vec![("type", Json::Bool(false))])), "repository type is required");
    assert_eq!(refused(object(vec![("type", text("vcs"))])), "repository URL is required");
    assert_eq!(
        refused(object(vec![("type", text("package"))])),
        "package repository data is required"
    );
    assert_eq!(
        refused(object(vec![("type", text("pigeon"))])),
        "unsupported repository type pigeon"
    );
    let read = OptionsRead {
        remote: Err("invalid type".to_string()),
        local: Ok(PathRepositoryOptions::default()),
    };
    let value = object(vec![("type", text("composer")), ("url", text("x"))]);
    assert_eq!(Repository::from_json(&value, &read).unwrap_err().message, "invalid type");
}

#[test]
fn errors_tell_what_they_are_about() {
    assert_eq!(
        ComposerError::VersionNotFound { name: "a/b".to_string(), version: "1".to_string() }
            .message(),
        "Version not found: a/b@1"
    );
    assert_eq!(
        ComposerError::DownloadFailed { package: "a/b".to_string(), reason: "gone".to_string() }
            .message(),
        "Download failed for a/b: gone"
    );
    assert_eq!(
        ComposerError::LockFileOutOfSync.message(),
        "Lock file is out of sync with composer.json"
    );
}

#[test]
fn test_inline_alias() {
    let result = sonata::schema::ComposerJson::get_inline_alias("dev-main as 1.0.0");
    assert!(result.is_some());
    let (actual, alias) = result.unwrap();
    assert_eq!(actual, "dev-main");
    assert_eq!(alias, "1.0.0");

    let result = sonata::schema::ComposerJson::get_inline_alias("^1.0");
    assert!(result.is_none());
}

#[test]
fn test_branch_aliases() {
    let json = r#"{
        "name": "vendor/package",
        "extra": {
            "branch-alias": {
                "dev-main": "1.0.x-dev",
                "dev-2.x": "2.0.x-dev"
            }
        }
    }"#;
    let document = sonata::json_file::read_value(json).unwrap();
    let mut result = sonata::schema::ComposerJson::default();
    result.extra = sonata::json::copy(document.get("extra").unwrap());
    let aliases = result.get_branch_aliases();
    assert!(!aliases.is_empty());
    assert_eq!(aliases[0], ("dev-main".to_string(), "1.0.x-dev".to_string()));
    assert_eq!(aliases[1], ("dev-2.x".to_string(), "2.0.x-dev".to_string()));
    assert!(sonata::schema::ComposerJson::default().get_branch_aliases().is_empty());
}

#[test]
fn a_lock_file_is_written_field_by_field() {
    let mut lock = ComposerLock::default();
    lock.readme = vec!["read me".to_string()];
    lock.content_hash = "abc".to_string();
    lock.minimum_stability = "stable".to_string();
    lock.plugin_api_version = "2.9.0".to_string();
    lock.platform.insert("php".to_string(), ">=8.1".to_string());
    let mut package = LockedPackage {
        name: "a/b".to_string(),
        version: "1.0".to_string(),
        package_type: "library".to_string(),
        homepage: Some(String::new()),
        abandoned: Json::Bool(false),
        default_branch: Some(true),
        ..Default::default()
    };
    package.dist = Some(sonata::lock::LockDist {
        dist_type: "zip".to_string(),
        url: "u".to_string(),
        reference: None,
        shasum: None,
    });
    package.autoload.psr4.insert("A\\".to_string(), Json::Text("src".to_string()));
    lock.packages = vec![package];
    assert_eq!(
        lock.to_json(),
        r#"{
  "_readme": [
    "read me"
  ],
  "content-hash": "abc",
  "packages": [
    {
      "name": "a/b",
      "version": "1.0",
      "dist": {
        "type": "zip",
        "url": "u",
        "shasum": ""
      },
      "type": "library",
      "autoload": {
        "psr-4": {
          "A\\": "src"
        }
      },
      "default-branch": true
    }
  ],
  "packages-dev": [],
  "aliases": [],
  "minimum-stability": "stable",
  "stability-flags": {},
  "prefer-stable": false,
  "prefer-lowest": false,
  "platform": {
    "php": ">=8.1"
  },
  "plugin-api-version": "2.9.0"
}"#
    );
}

#[test]
fn copies_keep_the_order() {
    let mut package = LockedPackage::default();
    for name in ["z/z", "a/a", "m/m"] {
        package.require.insert(name.to_string(), "*".to_string());
        package.autoload.psr4.insert(name.to_string(), Json::Null);
    }
    let copy = package.clone();
    assert!(copy.require.keys().eq(["z/z", "a/a", "m/m"]));
    assert!(copy.autoload.psr4.keys().eq(["z/z", "a/a", "m/m"]));
}
