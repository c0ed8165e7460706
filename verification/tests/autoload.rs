//! The files that make the classes of packages loadable.
use indexmap::IndexMap;

use sonata::autoload::classes::{extract_classes, is_php_file, is_scanned, qualify};
use sonata::autoload::code::{
    compute_file_identifier, exclude_pattern, extract_path_from_code, get_path_code, get_suffix,
    is_excluded, path_to_code, to_static_path, Roots,
};
use sonata::autoload::collect::{class_map, collect, collect_exclude_patterns, scan_paths};
use sonata::autoload::generate::generate;
use sonata::autoload::installed::{generate_installed_php, php_string, php_value_or_null};
use sonata::autoload::installed_json::generate_installed_json;
use sonata::autoload::order::sort_packages_by_dependency;
use sonata::lock::LockedPackage;
use sonata::autoload::types::{
    Autoload, AutoloadConfig, AutoloadPath, PackageAutoload, RootPackageInfo,
};

fn package(name: &str, version: &str) -> PackageAutoload {
    PackageAutoload {
        name: name.to_string(),
        install_path: name.to_string(),
        pretty_version: Some(version.to_string()),
        version: Some(format!("{}.0", version)),
        ..Default::default()
    }
}

fn psr4(namespace: &str, path: &str) -> Autoload {
    let mut map = IndexMap::new();
    map.insert(namespace.to_string(), AutoloadPath::Single(path.to_string()));
    Autoload { psr4: map, ..Default::default() }
}

#[test]
fn test_extract_class() {
    let content = r#"<?php
class MyClass {
}
"#;
    assert_eq!(extract_classes(content), vec!["MyClass"]);
}

#[test]
fn test_extract_namespaced_class() {
    let content = r#"<?php
namespace Vendor\Package;

class MyClass {
}
"#;
    assert_eq!(extract_classes(content), vec!["Vendor\\Package\\MyClass"]);
}

#[test]
fn test_extract_interface() {
    let content = r#"<?php
namespace App;

interface MyInterface {
}
"#;
    assert_eq!(extract_classes(content), vec!["App\\MyInterface"]);
}

#[test]
fn test_extract_trait() {
    let content = r#"<?php
namespace App\Traits;

trait MyTrait {
}
"#;
    assert_eq!(extract_classes(content), vec!["App\\Traits\\MyTrait"]);
}

#[test]
fn test_extract_enum() {
    let content = r#"<?php
namespace App\Enums;

enum Status {
    case Active;
    case Inactive;
}
"#;
    assert_eq!(extract_classes(content), vec!["App\\Enums\\Status"]);
}

#[test]
fn test_extract_abstract_class() {
    let content = r#"<?php
namespace App;

abstract class AbstractBase {
}
"#;
    assert_eq!(extract_classes(content), vec!["App\\AbstractBase"]);
}

#[test]
fn test_extract_final_class() {
    let content = r#"<?php
namespace App;

final class FinalClass {
}
"#;
    assert_eq!(extract_classes(content), vec!["App\\FinalClass"]);
}

#[test]
fn test_extract_one_line_namespaced_class() {
    let content = r#"<?php namespace App; final class OneLine {}"#;
    assert_eq!(extract_classes(content), vec!["App\\OneLine"]);
}

#[test]
fn the_namespace_of_a_file_stands_before_its_classes() {
    let names = vec![Some("A".to_string()), None, Some("B".to_string())];
    assert_eq!(qualify(&vec![Some("N".to_string())], &names), vec!["N\\A", "N\\B"]);
    assert_eq!(qualify(&vec![None, Some("N".to_string())], &names), vec!["A", "B"]);
    assert_eq!(qualify(&vec![], &names), vec!["A", "B"]);
}

#[test]
fn test_is_php_file() {
    assert!(is_php_file("test.php"));
    assert!(is_php_file("test.PHP"));
    assert!(!is_php_file("test.txt"));
    assert!(!is_php_file("test"));
}

#[test]
fn patterns_leave_files_out() {
    let pattern = exclude_pattern("/tests/", "", true, "/p/vendor", "/p");
    assert_eq!(pattern, "/p/tests");
    let patterns = vec![pattern];
    assert!(is_excluded("/p/tests/ATest.php", &patterns));
    assert!(!is_excluded("/p/src/A.php", &patterns));
    assert!(is_scanned("/p/src/A.php", &patterns));
    assert!(!is_scanned("/p/tests/ATest.php", &patterns));
    assert!(!is_scanned("/p/src/A.txt", &patterns));

    let wild = vec![exclude_pattern("**/Fixtures", "a/b", false, "/p/vendor/", "/p")];
    assert_eq!(wild[0], "/p/vendor/a/b/.*/Fixtures");
    assert!(is_excluded("/p/vendor/a/b/src/Fixtures/X.php", &wild));
}

#[test]
fn test_autoload_config_default() {
    let config = AutoloadConfig::default();
    assert_eq!(config.vendor_dir, "vendor");
    assert!(!config.optimize);
    assert!(!config.apcu);
}

#[test]
fn test_extract_path_from_code_stays_under_configured_roots() {
    assert_eq!(
        extract_path_from_code("$baseDir . '/src'", "/p/vendor", "/p"),
        Some("/p/src".to_string())
    );
    assert_eq!(
        extract_path_from_code("$vendorDir . '/vendor/package/src'", "/p/vendor", "/p"),
        Some("/p/vendor/vendor/package/src".to_string())
    );
}

#[test]
fn code_stands_for_its_path() {
    let code = get_path_code("a/b", "src/", false);
    assert_eq!(code, "$vendorDir . '/a/b/src'");
    assert_eq!(
        extract_path_from_code(&code, "/p/vendor", "/p"),
        Some("/p/vendor/a/b/src".to_string())
    );
    assert_eq!(get_path_code("", ".", true), "$baseDir . '/'");
    assert_eq!(to_static_path("$vendorDir . '/a/b'"), "__DIR__ . '/..' . '/a/b'");
    assert_eq!(to_static_path("$baseDir . '/src'"), "__DIR__ . '/../..' . '/src'");
}

#[test]
fn files_are_told_by_the_directory_they_are_in() {
    let roots = Roots {
        vendor_dir: "/p/vendor".to_string(),
        base_dir: "/p".to_string(),
        real_vendor_dir: "/p/vendor".to_string(),
        real_base_dir: "/p".to_string(),
    };
    assert_eq!(
        path_to_code("/p/vendor/a/b/A.php", &None, &roots),
        "$vendorDir . '/a/b/A.php'"
    );
    assert_eq!(path_to_code("/p/src/A.php", &None, &roots), "$baseDir . '/src/A.php'");
}

#[test]
fn identifiers_are_digests() {
    assert_eq!(compute_file_identifier("a/b", "src/f.php"), "f7d907c6f4e6dd95a528878249f4a124");
    assert_ne!(compute_file_identifier("a/b", "x"), compute_file_identifier("a/b", "y"));
    assert_eq!(get_suffix(&Some("abc".to_string()), "now"), "abc");
    assert_eq!(get_suffix(&None, "").as_str(), "d41d8cd98f00b204");
}

#[test]
fn packages_that_others_require_come_first() {
    let mut a = package("a/a", "1.0.0");
    a.requires = vec!["z/z".to_string()];
    let all = vec![a, package("b/b", "1.0.0"), package("z/z", "1.0.0")];
    let order: Vec<&str> =
        sort_packages_by_dependency(&all).iter().map(|p| p.name.as_str()).collect();
    assert_eq!(order, ["z/z", "a/a", "b/b"]);
}

#[test]
fn the_loader_is_written_file_by_file() {
    let mut a = package("a/b", "1.0.0");
    a.autoload = psr4("A\\B\\", "src/");
    a.autoload.files = vec!["functions.php".to_string()];
    let root = psr4("App\\", "app");
    let packages = [&a];
    let known = collect(&packages, Some(&root));
    assert_eq!(known.psr4[0], ("A\\B\\".to_string(), vec!["$vendorDir . '/a/b/src'".to_string()]));
    assert_eq!(known.psr4[1], ("App\\".to_string(), vec!["$baseDir . '/app'".to_string()]));
    let classes = class_map(&vec![(
        "A\\B\\C".to_string(),
        "$vendorDir . '/a/b/src/C.php'".to_string(),
    )]);
    let config = AutoloadConfig {
        vendor_dir: "/p/vendor".to_string(),
        base_dir: "/p".to_string(),
        optimize: true,
        ..Default::default()
    };
    let files = generate(&config, "abc", &known, &classes);
    let paths: Vec<&str> = files.iter().map(|f| f.0.as_str()).collect();
    assert_eq!(
        paths,
        [
            "/p/vendor/autoload.php",
            "/p/vendor/composer/autoload_real.php",
            "/p/vendor/composer/autoload_static.php",
            "/p/vendor/composer/autoload_psr4.php",
            "/p/vendor/composer/autoload_namespaces.php",
            "/p/vendor/composer/autoload_classmap.php",
            "/p/vendor/composer/autoload_files.php",
            "/p/vendor/composer/platform_check.php",
        ]
    );
    assert!(files[0].1.contains("ComposerAutoloaderInitabc"));
    assert!(files[2].1.contains("'A\\\\B\\\\' => 4"));
    assert!(files[3].1.contains("'A\\\\B\\\\' => array($vendorDir . '/a/b/src')"));
    assert!(files[5].1.contains("$vendorDir . '/a/b/src/C.php'"));
    assert_eq!(
        scan_paths(&packages, Some(&root), &known, true, "/p/vendor", "/p"),
        vec!["/p/vendor/a/b/src", "/p/app"]
    );
    assert!(collect_exclude_patterns(&packages, Some(&root), "/p/vendor", "/p").is_empty());
}

fn project() -> RootPackageInfo {
    RootPackageInfo {
        name: "my/project".to_string(),
        pretty_version: "dev-main".to_string(),
        version: "dev-main".to_string(),
        reference: None,
        package_type: "project".to_string(),
        aliases: Vec::new(),
        dev_mode: true,
    }
}

#[test]
fn test_generate_installed_php_with_packages() {
    let mut first = package("vendor/package1", "1.0.0");
    first.reference = Some("abc123".to_string());
    first.installation_source = Some("dist".to_string());
    let mut second = package("vendor/package2", "2.0.0");
    second.reference = Some("def456".to_string());
    second.dev_requirement = true;

    let root = project();
    let content = generate_installed_php(&[&first, &second], Some(&root));
    assert!(content.contains("'my/project'"));
    assert!(content.contains("'vendor/package1'"));
    assert!(content.contains("'vendor/package2'"));
    assert!(content.contains("'1.0.0'"));
    assert!(content.contains("'abc123'"));
    assert!(content.contains("'dev_requirement' => false"));
    assert!(content.contains("'dev_requirement' => true"));

    let text = generate_installed_json(&[&first, &second], &[None, None], Some(true));
    let installed: serde_json::Value = serde_json::from_str(&text).unwrap();
    assert_eq!(installed["packages"].as_array().unwrap().len(), 2);
    assert_eq!(installed["dev"], true);
    assert_eq!(installed["dev-package-names"][0], "vendor/package2");
    assert_eq!(installed["packages"][0]["installation-source"], "dist");
}

#[test]
fn test_generate_installed_php_with_provides_and_replaces() {
    let mut monolog = package("monolog/monolog", "2.0.0");
    monolog.replaces.insert("old/package".to_string(), "1.0.0".to_string());
    monolog.provides.insert("psr/log-implementation".to_string(), "1.0.0".to_string());

    let content = generate_installed_php(&[&monolog], None);
    assert!(content.contains("'psr/log-implementation'"));
    assert!(content.contains("'provided'"));
    assert!(content.contains("'old/package'"));
    assert!(content.contains("'replaced'"));
}

#[test]
fn texts_are_quoted_for_php() {
    assert_eq!(php_string("it's"), "'it\\'s'");
    assert_eq!(php_string("a\\b"), "'a\\\\b'");
    assert_eq!(php_value_or_null(&None), "NULL");
}

fn loaded(links: &[(&str, &[&str])]) -> Vec<String> {
    let all: Vec<PackageAutoload> = links
        .iter()
        .map(|(name, requires)| {
            let mut p = package(name, "1.0.0");
            p.requires = requires.iter().map(|r| r.to_string()).collect();
            p
        })
        .collect();
    sort_packages_by_dependency(&all).iter().map(|p| p.name.clone()).collect()
}

#[test]
fn a_chain_is_loaded_from_its_end() {
    assert_eq!(loaded(&[("a", &["b"]), ("b", &["c"]), ("c", &[])]), ["c", "b", "a"]);
    assert_eq!(loaded(&[("c", &[]), ("b", &["c"]), ("a", &["b"])]), ["c", "b", "a"]);
    assert!(loaded(&[]).is_empty());
}

#[test]
fn many_dependents_do_not_outweigh_a_chain() {
    let links: &[(&str, &[&str])] = &[
        ("w/w", &["m/m"]),
        ("x/x", &["m/m"]),
        ("y/y", &["m/m"]),
        ("m/m", &["z/z", "php"]),
        ("z/z", &[]),
        ("b/b", &[]),
    ];
    assert_eq!(loaded(links), ["z/z", "m/m", "b/b", "w/w", "x/x", "y/y"]);
}

#[test]
fn packages_in_a_circle_are_loaded_by_name() {
    assert_eq!(loaded(&[("c", &["a"]), ("b", &["a"]), ("a", &["b"])]), ["a", "b", "c"]);
    assert_eq!(loaded(&[("b", &[]), ("a", &["a"])]), ["a", "b"]);
}

#[test]
fn a_package_without_a_place_stands_in_the_project() {
    let mut own = package("own/own", "1.0.0");
    own.install_path = String::new();
    own.autoload.classmap = vec!["src".to_string()];
    let mut other = package("a/b", "1.0.0");
    other.autoload.classmap = vec!["lib".to_string()];
    let packages = [&own, &other];
    let known = collect(&packages, None);
    assert_eq!(
        scan_paths(&packages, None, &known, false, "/v", "/b"),
        ["/b/src", "/v/a/b/lib"]
    );
}

#[test]
fn installed_packages_tell_what_is_locked() {
    let mut one = package("a/b", "1.0.0");
    let mut locked = LockedPackage {
        name: "a/b".to_string(),
        version: "1.0.0".to_string(),
        package_type: "library".to_string(),
        description: Some(String::new()),
        ..Default::default()
    };
    locked.require.insert("php".to_string(), ">=8.1".to_string());
    locked.time = Some("2024-01-01".to_string());
    one.locked_package = Some(locked);
    let text = generate_installed_json(&[&one], &[Some("1.0.0.0".to_string())], None);
    let installed: serde_json::Value = serde_json::from_str(&text).unwrap();
    let entry = installed["packages"][0].as_object().unwrap();
    let keys: Vec<&str> = entry.keys().map(|key| key.as_str()).collect();
    assert_eq!(
        keys,
        ["name", "version", "require", "type", "time", "version_normalized", "install-path"]
    );
    assert_eq!(entry["version_normalized"], "1.0.0.0");
    assert_eq!(entry["require"]["php"], ">=8.1");
}
