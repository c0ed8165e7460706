//! The command `config`: settings that are written, read and listed.
use serde_json::Value;

use sonata::json::{merge_objects, nested, remove_nested, same, set_nested, Json, Number};
use sonata::settings::action::{action, resolve_files, tls_change, Action};
use sonata::settings::documents::{load_merged_config, Environment, Layer, MergedConfig};
use sonata::settings::keys::{auth_key, repository_key};
use sonata::settings::read::{display_value, list_configuration, read_setting, size_parts};
use sonata::settings::repositories::{remove_repository, set_repository};
use sonata::settings::values::{merge_json_values, normalize_auth, repository_value};
use sonata::settings::write::{set_setting, unset_setting, ConfigArgs};

fn taken(value: Value) -> Json {
    match value {
        Value::Null => Json::Null,
        Value::Bool(b) => Json::Bool(b),
        Value::Number(n) => match n.as_u64() {
            Some(k) => Json::Number(Number::Unsigned(k)),
            None => Json::Number(Number::Negative(n.as_i64().unwrap())),
        },
        Value::String(s) => Json::Text(s),
        Value::Array(a) => Json::Array(a.into_iter().map(taken).collect()),
        Value::Object(o) => Json::Object(o.into_iter().map(|(k, v)| (k, taken(v))).collect()),
    }
}

fn json(text: &str) -> Json {
    taken(serde_json::from_str(text).unwrap())
}

fn args(values: &[&str]) -> ConfigArgs {
    ConfigArgs {
        global: false,
        editor: false,
        auth: false,
        unset: false,
        list: false,
        file: None,
        absolute: false,
        json: false,
        merge: false,
        append: false,
        source: false,
        setting_key: None,
        setting_value: values.iter().map(|v| v.to_string()).collect(),
        working_dir: ".".to_string(),
    }
}

fn no_environment() -> Environment {
    Environment {
        process_timeout: None,
        vendor_dir: None,
        bin_dir: None,
        cache_dir: None,
        discard_changes: None,
        cache_read_only: None,
    }
}

fn merged(document: &str, environment: &Environment) -> MergedConfig {
    let layers = [Layer {
        document: Some(json(document)),
        source: "./composer.json".to_string(),
        auth: None,
        auth_source: "./auth.json".to_string(),
    }];
    load_merged_config(&layers, environment, "/project", "/home/me/.composer", false)
}

#[test]
fn nested_values_round_trip() {
    let mut value = json("{}");
    set_nested(&mut value, &["config", "audit", "ignore"], json(r#"["CVE"]"#));
    assert!(same(
        nested(&value, &["config", "audit", "ignore"]).unwrap(),
        &json(r#"["CVE"]"#)
    ));
    assert!(remove_nested(&mut value, &["config", "audit", "ignore"], false));
    assert!(same(&value, &json(r#"{"config": {"audit": {}}}"#)));
}

#[test]
fn removal_can_prune_what_it_empties() {
    let mut value = json(r#"{"config": {"audit": {"ignore": 1}}, "name": "a/b"}"#);
    assert!(remove_nested(&mut value, &["config", "audit", "ignore"], true));
    assert!(same(&value, &json(r#"{"name": "a/b"}"#)));
    assert!(!remove_nested(&mut value, &["config", "audit", "ignore"], true));
    assert!(same(&value, &json(r#"{"name": "a/b"}"#)));
}

#[test]
fn merge_arrays_and_objects_like_composer() {
    let list = merge_json_values(&json(r#"["old"]"#), &json(r#"["new"]"#), "extra.test").unwrap();
    assert!(same(&list, &json(r#"["old", "new"]"#)));
    let object = merge_json_values(
        &json(r#"{"old": 1, "replace": 1}"#),
        &json(r#"{"new": 2, "replace": 2}"#),
        "extra.test",
    )
    .unwrap();
    assert!(same(&object, &json(r#"{"new": 2, "replace": 2, "old": 1}"#)));
}

#[test]
fn arrays_and_objects_do_not_merge() {
    let refused = merge_json_values(&json("{}"), &json(r#"["new"]"#), "extra.test");
    assert_eq!(
        refused.unwrap_err().message,
        "Cannot merge array and object for extra.test"
    );
    let replaced = merge_json_values(&json("1"), &json(r#"["new"]"#), "extra.test").unwrap();
    assert!(same(&replaced, &json(r#"["new"]"#)));
}

#[test]
fn repository_aliases_are_recognized() {
    assert_eq!(repository_key("repo.foo"), Some("foo"));
    assert_eq!(
        repository_key("repositories.packagist.org"),
        Some("packagist.org")
    );
    assert_eq!(repository_key("repos"), Some(""));
    assert_eq!(repository_key("report"), None);
}

#[test]
fn auth_host_keeps_dots() {
    assert_eq!(
        auth_key("http-basic.repo.example.org"),
        Some(("http-basic", "repo.example.org"))
    );
}

#[test]
fn merging_an_object_twice_changes_nothing_more() {
    let mut value = json(r#"{"a": {"b": 1}, "c": 2}"#);
    let incoming = json(r#"{"a": {"d": 3}, "c": 4}"#);
    merge_objects(&mut value, &incoming);
    assert!(same(&value, &json(r#"{"a": {"b": 1, "d": 3}, "c": 4}"#)));
    merge_objects(&mut value, &incoming);
    assert!(same(&value, &json(r#"{"a": {"b": 1, "d": 3}, "c": 4}"#)));
}

#[test]
fn a_setting_that_is_written_is_read_back() {
    let mut document = json(r#"{"name": "a/b"}"#);
    let mut auth = json("{}");
    let wrote = set_setting("vendor-dir", &args(&["lib"]), &mut document, &mut auth, None);
    assert!(!wrote.unwrap());
    assert!(same(
        &document,
        &json(r#"{"name": "a/b", "config": {"vendor-dir": "lib"}}"#)
    ));

    let text = r#"{"name": "a/b", "config": {"vendor-dir": "lib"}}"#;
    let config = merged(text, &no_environment());
    let (value, source) =
        read_setting("vendor-dir", &config, &document, "./composer.json", false).unwrap();
    assert!(same(&value, &Json::Text("lib".to_string())));
    assert_eq!(source, "./composer.json");

    assert!(!unset_setting("vendor-dir", &mut document, &mut auth));
    assert!(nested(&document, &["config", "vendor-dir"]).is_none());
}

#[test]
fn switches_are_written_as_switches() {
    let mut document = json("{}");
    let mut auth = json("{}");
    set_setting("secure-http", &args(&["false"]), &mut document, &mut auth, None).unwrap();
    assert!(same(&document, &json(r#"{"config": {"secure-http": false}}"#)));
    assert!(set_setting("secure-http", &args(&["maybe"]), &mut document, &mut auth, None).is_err());
    assert!(same(&document, &json(r#"{"config": {"secure-http": false}}"#)));
}

#[test]
fn json_values_are_read_by_the_parser() {
    let mut document = json("{}");
    let mut auth = json("{}");
    let mut request = args(&[r#"{"b": [1, 2]}"#]);
    request.json = true;
    set_setting("extra.a", &request, &mut document, &mut auth, None).unwrap();
    assert!(same(&document, &json(r#"{"extra": {"a": {"b": [1, 2]}}}"#)));
}

#[test]
fn unknown_settings_are_refused() {
    let mut document = json("{}");
    let mut auth = json("{}");
    let refused = set_setting("no-such-thing", &args(&["x"]), &mut document, &mut auth, None);
    assert_eq!(
        refused.unwrap_err().message,
        "Setting no-such-thing does not exist or is not supported by this command"
    );
}

#[test]
fn credentials_go_to_their_own_file() {
    let mut document = json(r#"{"config": {"github-oauth": {"github.com": "old"}}}"#);
    let mut auth = json("{}");
    let request = args(&["token"]);
    let wrote =
        set_setting("github-oauth.github.com", &request, &mut document, &mut auth, None).unwrap();
    assert!(wrote);
    assert!(same(&auth, &json(r#"{"github-oauth": {"github.com": "token"}}"#)));
    assert!(nested(&document, &["config", "github-oauth", "github.com"]).is_none());
    assert!(unset_setting("github-oauth.github.com", &mut document, &mut auth));
    assert!(nested(&auth, &["github-oauth", "github.com"]).is_none());
}

#[test]
fn credentials_take_as_many_words_as_they_need() {
    let two = vec!["user".to_string(), "pass".to_string()];
    let basic = normalize_auth("http-basic", &two).unwrap();
    assert!(same(&basic, &json(r#"{"username": "user", "password": "pass"}"#)));
    assert!(normalize_auth("http-basic", &two[..1]).is_err());
}

#[test]
fn environment_decides_over_files() {
    let mut environment = no_environment();
    environment.vendor_dir = Some("elsewhere".to_string());
    let text = r#"{"config": {"vendor-dir": "lib"}}"#;
    let config = merged(text, &environment);
    let (value, source) =
        read_setting("vendor-dir", &config, &json(text), "./composer.json", false).unwrap();
    assert!(same(&value, &Json::Text("elsewhere".to_string())));
    assert_eq!(source, "COMPOSER_VENDOR_DIR");
}

#[test]
fn defaults_hold_where_nothing_is_set() {
    let config = merged("{}", &no_environment());
    let (value, source) =
        read_setting("process-timeout", &config, &json("{}"), "./composer.json", false).unwrap();
    assert_eq!(display_value(&value), "300");
    assert_eq!(source, "default");
    let (value, _) =
        read_setting("vendor-dir", &config, &json("{}"), "./composer.json", true).unwrap();
    assert_eq!(display_value(&value), "/project/vendor");
}

#[test]
fn settings_that_are_not_there_are_refused() {
    let config = merged("{}", &no_environment());
    assert!(read_setting("no-such-thing", &config, &json("{}"), "./composer.json", false).is_err());
}

#[test]
fn listing_names_settings_and_their_origins() {
    let config = merged(r#"{"config": {"vendor-dir": "lib"}}"#, &no_environment());
    let listing = list_configuration(&config, true, None);
    assert!(listing.contains("[vendor-dir] lib (/project/lib) (./composer.json)\n"));
    assert!(listing.contains("[process-timeout] 300 (default)\n"));
}

#[test]
fn repositories_are_set_and_removed_by_name() {
    let mut document = json("{}");
    let value = repository_value(
        &["vcs".to_string(), "https://example.org/a.git".to_string()],
        None,
    )
    .unwrap();
    set_repository(&mut document, "mine", value, true);
    let repositories = nested(&document, &["repositories"]).unwrap();
    assert!(same(
        repositories,
        &json(r#"[{"name": "mine", "type": "vcs", "url": "https://example.org/a.git"}]"#)
    ));
    remove_repository(&mut document, "mine");
    let left = match nested(&document, &["repositories"]) {
        Some(Json::Array(v)) => v.len(),
        _ => 0,
    };
    assert_eq!(left, 0);
}

#[test]
fn the_first_switch_that_applies_decides() {
    let mut request = args(&[]);
    assert_eq!(action(&request).unwrap(), Action::Nothing);
    request.setting_key = Some("vendor-dir".to_string());
    assert_eq!(action(&request).unwrap(), Action::Show);
    request.list = true;
    assert_eq!(action(&request).unwrap(), Action::List);
    request.editor = true;
    assert_eq!(action(&request).unwrap(), Action::Edit { auth: false });
    request.global = true;
    request.file = Some("x.json".to_string());
    assert_eq!(
        action(&request).unwrap_err().message,
        "--file and --global can not be combined"
    );
}

#[test]
fn values_cannot_be_combined_with_unset() {
    let mut request = args(&["lib"]);
    request.setting_key = Some("vendor-dir".to_string());
    assert_eq!(action(&request).unwrap(), Action::Assign);
    request.unset = true;
    assert_eq!(
        action(&request).unwrap_err().message,
        "You can not combine a setting value with --unset"
    );
}

#[test]
fn files_stand_beside_each_other() {
    let mut request = args(&[]);
    let files = resolve_files(&request, "/project", "/home/me");
    assert_eq!(files.config_path, "/project/composer.json");
    assert_eq!(files.auth_path, "/project/auth.json");
    assert_eq!(files.source_name, "./composer.json");
    request.global = true;
    let files = resolve_files(&request, "/project", "/home/me");
    assert_eq!(files.config_path, "/home/me/config.json");
    assert_eq!(files.auth_path, "/home/me/auth.json");
}

#[test]
fn turning_tls_off_is_told() {
    let values = vec!["true".to_string()];
    assert_eq!(tls_change("disable-tls", false, &values, false).unwrap(), Some(false));
    assert_eq!(tls_change("vendor-dir", false, &values, false).unwrap(), None);
}

#[test]
fn sizes_have_units() {
    assert_eq!(size_parts("300MiB"), ("300".to_string(), Some(1048576)));
    assert_eq!(size_parts("2 g"), ("2".to_string(), Some(1073741824)));
    assert_eq!(size_parts("7"), ("7".to_string(), Some(1)));
    assert_eq!(size_parts("7 parsecs"), ("7".to_string(), None));
}

#[test]
fn choices_are_listed() {
    let choices = ["auto", "source", "dist"];
    assert!(sonata::settings::values::validate_enum("preferred-install", "dist", &choices).is_ok());
    let refusal = match sonata::settings::values::validate_enum("preferred-install", "zip", &choices) {
        Ok(()) => panic!("accepted"),
        Err(refusal) => refusal,
    };
    assert_eq!(refusal.message, "\"zip\" is an invalid value for preferred-install");
}
