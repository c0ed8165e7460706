//! PHP, and how much the user is told.
use sonata::output::{Output, Verbosity};
use sonata::platform::{
    cache_path, check_php_version, executable_places, is_still_good, platform_cache_dir,
    probe_environment, probe_failed, select_php_binary, FileState, MetadataState, ProbeIdentity,
};

fn some(s: &str) -> Option<String> {
    Some(s.to_string())
}

#[test]
fn php_path_precedence_is_explicit_and_stable() {
    assert_eq!(
        select_php_binary(some("cli"), some("sonata-env"), some("php-env")),
        "cli"
    );
    assert_eq!(
        select_php_binary(None, some("sonata-env"), some("php-env")),
        "sonata-env"
    );
    assert_eq!(select_php_binary(None, None, some("php-env")), "php-env");
    assert_eq!(select_php_binary(None, None, None), "php");
}

#[test]
fn old_php_is_refused() {
    assert!(check_php_version("php", 70205, "7.2.5").is_ok());
    assert!(check_php_version("php", 80301, "8.3.1").is_ok());
    assert_eq!(
        check_php_version("/opt/php", 70204, "7.2.4").unwrap_err().message,
        "sonata requires PHP >= 7.2.5; /opt/php reports 7.2.4"
    );
}

#[test]
fn the_platform_cache_follows_the_environment() {
    assert_eq!(platform_cache_dir(Some("1"), Some("/x"), Some("/h")), None);
    assert_eq!(
        platform_cache_dir(Some("0"), Some("/x"), Some("/h")),
        some("/x/sonata/platform")
    );
    assert_eq!(
        platform_cache_dir(None, Some(""), Some("/h")),
        some("/h/.cache/sonata/platform")
    );
    assert_eq!(platform_cache_dir(None, None, None), None);
    assert_eq!(cache_path("/c", 0x1f), "/c/v1-000000000000001f.json");
    assert_eq!(cache_path("/c", u64::MAX), "/c/v1-ffffffffffffffff.json");
}

fn state(path: &str, len: u64) -> FileState {
    FileState {
        requested: path.to_string(),
        resolved: path.to_string(),
        metadata: Some(MetadataState { len, modified_ns: 1, is_dir: false }),
    }
}

fn identity(path: &str) -> ProbeIdentity {
    ProbeIdentity {
        php: state(path, 1),
        current_dir: "/p".to_string(),
        environment: vec![("PATH".to_string(), "/bin".to_string())],
    }
}

#[test]
fn what_php_said_is_good_while_nothing_changes() {
    let ini = vec![state("/php.ini", 5)];
    assert!(is_still_good(1, &identity("/php"), &identity("/php"), &ini, &vec![state("/php.ini", 5)]));
    assert!(!is_still_good(1, &identity("/php"), &identity("/php"), &ini, &vec![state("/php.ini", 6)]));
    assert!(!is_still_good(1, &identity("/php"), &identity("/php8"), &ini, &ini));
    assert!(!is_still_good(2, &identity("/php"), &identity("/php"), &ini, &ini));
}

#[test]
fn variables_that_bear_on_php_are_sorted() {
    let pair = |k: &str, v: &str| (k.to_string(), v.to_string());
    let all = vec![
        pair("PHP_INI", "b"),
        pair("HOME", "/h"),
        pair("PATH", "/bin"),
        pair("DYLD_X", "1"),
        pair("PHP_INI", "a"),
    ];
    assert_eq!(
        probe_environment(&all),
        vec![
            pair("DYLD_X", "1"),
            pair("PATH", "/bin"),
            pair("PHP_INI", "a"),
            pair("PHP_INI", "b"),
        ]
    );
}

#[test]
fn programs_are_looked_for_on_the_path() {
    let directories = vec!["/bin".to_string(), "/usr/bin".to_string()];
    assert_eq!(executable_places("php", &directories), vec!["/bin/php", "/usr/bin/php"]);
    assert_eq!(executable_places("./php", &directories), vec!["./php"]);
    assert_eq!(executable_places("/opt/php", &directories), vec!["/opt/php"]);
    assert_eq!(
        probe_failed("php", "exit status: 1", " oops\n"),
        "PHP platform probe failed using php (exit exit status: 1): oops"
    );
}

#[test]
fn test_verbosity_ordering() {
    assert!(Verbosity::Quiet < Verbosity::Normal);
    assert!(Verbosity::Normal < Verbosity::Verbose);
    assert!(Verbosity::Verbose < Verbosity::VeryVerbose);
    assert!(Verbosity::VeryVerbose < Verbosity::Debug);
}

#[test]
fn test_output_creation() {
    let output = Output::new();
    assert!(!output.is_quiet());
    assert!(!output.is_json());
}

#[test]
fn louder_output_tells_more() {
    let mut output = Output::new();
    assert!(output.should_output(Verbosity::Quiet));
    assert!(!output.should_output(Verbosity::Verbose));
    output.set_verbosity(Verbosity::Debug);
    assert!(output.should_output(Verbosity::Verbose));
    assert_eq!(output.table_row(&["ab", "c"], &[4]), some("ab  c                   "));
    output.set_json_mode(true);
    assert!(!output.should_output(Verbosity::Quiet));
    assert_eq!(output.table_row(&["ab"], &[4]), None);
}
