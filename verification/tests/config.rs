//! The configuration.
use sonata::config::settings::{
    AllowPlugins, Config, ConfigSource, DiscardChanges, EnvironmentOverrides, PlatformCheck,
    PreferredInstall, StoreAuths,
};
use sonata::json::{Json, Number};

fn text(s: &str) -> Json {
    Json::Text(s.to_string())
}

#[test]
fn config_test_default_config() {
    let config = Config::default();
    assert_eq!(config.vendor_dir, "vendor");
    assert_eq!(config.bin_dir, "vendor/bin");
    assert_eq!(config.process_timeout, 300);
    assert!(config.secure_http);
    assert!(!config.disable_tls);
    assert_eq!(config.preferred_install, PreferredInstall::Dist);
    assert_eq!(config.store_auths, StoreAuths::Prompt);
}

#[test]
fn test_allow_plugins_config_merge() {
    let mut config = Config::default();
    config.merge_config_value(
        "allow-plugins",
        &Json::Object(vec![
            ("phpstan/*".to_string(), Json::Bool(true)),
            ("vendor/plugin".to_string(), Json::Bool(false)),
        ]),
        &ConfigSource::Project,
    );

    match &config.allow_plugins {
        AllowPlugins::List(list) => assert_eq!(
            list,
            &vec![
                ("phpstan/*".to_string(), true),
                ("vendor/plugin".to_string(), false),
            ]
        ),
        AllowPlugins::Bool(_) => panic!("a list was expected"),
    }
}

#[test]
fn test_preferred_install_from_str() {
    assert_eq!(PreferredInstall::from_str("auto"), Some(PreferredInstall::Auto));
    assert_eq!(PreferredInstall::from_str("source"), Some(PreferredInstall::Source));
    assert_eq!(PreferredInstall::from_str("dist"), Some(PreferredInstall::Dist));
    assert_eq!(PreferredInstall::from_str("invalid"), None);
}

#[test]
fn test_store_auths_from_str() {
    assert_eq!(StoreAuths::from_str("true"), Some(StoreAuths::True));
    assert_eq!(StoreAuths::from_str("false"), Some(StoreAuths::False));
    assert_eq!(StoreAuths::from_str("prompt"), Some(StoreAuths::Prompt));
    assert_eq!(StoreAuths::from_str("invalid"), None);
}

#[test]
fn test_discard_changes_from_str() {
    assert_eq!(DiscardChanges::from_str("true"), Some(DiscardChanges::True));
    assert_eq!(DiscardChanges::from_str("false"), Some(DiscardChanges::False));
    assert_eq!(DiscardChanges::from_str("stash"), Some(DiscardChanges::Stash));
    assert_eq!(DiscardChanges::from_str("invalid"), None);
}

#[test]
fn test_platform_check_from_str() {
    assert_eq!(PlatformCheck::from_str("php-only"), Some(PlatformCheck::PhpOnly));
    assert_eq!(PlatformCheck::from_str("true"), Some(PlatformCheck::True));
    assert_eq!(PlatformCheck::from_str("false"), Some(PlatformCheck::False));
    assert_eq!(PlatformCheck::from_str("invalid"), None);
}

#[test]
fn test_config_with_base_dir() {
    let config = Config::with_base_dir("/path/to/project");
    assert_eq!(config.base_dir(), Some("/path/to/project"));
}

#[test]
fn test_resolve_path() {
    let mut config = Config::default();
    config.set_base_dir("/project");

    assert_eq!(config.resolve_path("vendor"), "/project/vendor");
    assert_eq!(config.resolve_path("/absolute/path"), "/absolute/path");
}

#[test]
fn values_change_what_they_name_and_nothing_else() {
    let mut config = Config::default();
    config.merge_config_value("process-timeout", &Json::Number(Number::Unsigned(600)), &ConfigSource::Global);
    config.merge_config_value("vendor-dir", &text("lib"), &ConfigSource::Project);
    assert_eq!(config.process_timeout, 600);
    assert_eq!(config.vendor_dir, "lib");
    assert_eq!(config.bin_dir, "vendor/bin");
    assert!(matches!(config.get_source("vendor-dir"), Some(ConfigSource::Project)));
    assert!(matches!(config.get_source("process-timeout"), Some(ConfigSource::Global)));
}

#[test]
fn environment_comes_last() {
    let mut config = Config::default();
    config.merge_config_value("vendor-dir", &text("lib"), &ConfigSource::Project);
    let overrides = EnvironmentOverrides {
        vendor_dir: Some("from-environment".to_string()),
        ..EnvironmentOverrides::default()
    };
    config.apply_env_overrides(&overrides);
    assert_eq!(config.vendor_dir, "from-environment");
}
