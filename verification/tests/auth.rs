//! Credentials by domain.
use sonata::config::auth::{extract_domain, AuthConfig, AuthMatch, GitLabAuth};

#[test]
fn test_auth_config_default() {
    let config = AuthConfig::new();
    assert!(config.is_empty());
}

#[test]
fn test_auth_config_merge() {
    let mut config1 = AuthConfig::new();
    config1.set_github_oauth("github.com", "token1");
    config1.set_http_basic("example.org", "user1", "pass1");

    let mut config2 = AuthConfig::new();
    config2.set_github_oauth("github.com", "token2");
    config2.set_gitlab_oauth("gitlab.com", "gitlab_token");

    config1.merge(config2);

    assert_eq!(config1.get_github_oauth("github.com"), Some("token2"));
    assert_eq!(config1.get_gitlab_oauth("gitlab.com"), Some("gitlab_token"));
    assert!(config1.get_http_basic("example.org").is_some());
}

#[test]
fn test_extract_domain() {
    assert_eq!(extract_domain("https://github.com/owner/repo"), "github.com");
    assert_eq!(
        extract_domain("https://api.github.com/repos/owner/repo"),
        "api.github.com"
    );
    assert_eq!(extract_domain("git@github.com:owner/repo.git"), "github.com");
    assert_eq!(
        extract_domain("https://gitlab.example.com/group/repo"),
        "gitlab.example.com"
    );
    assert_eq!(
        extract_domain("https://bitbucket.org/owner/repo"),
        "bitbucket.org"
    );
}

#[test]
fn domains_are_in_lower_case() {
    assert_eq!(extract_domain("https://GitHub.com/owner/repo"), "github.com");
    assert_eq!(extract_domain("git@GitHub.com:owner/repo.git"), "github.com");
}

#[test]
fn test_find_for_url() {
    let mut config = AuthConfig::new();
    config.set_github_oauth("github.com", "gh_token");
    config.set_gitlab_token("gitlab.com", "gl_token");
    config.set_http_basic("private.example.org", "user", "pass");

    let auth = config.find_for_url("https://github.com/owner/repo");
    assert!(matches!(auth, AuthMatch::GitHubOAuth("gh_token")));

    let auth = config.find_for_url("https://gitlab.com/owner/repo");
    assert!(matches!(auth, AuthMatch::GitLabToken("gl_token")));

    let auth = config.find_for_url("https://private.example.org/packages.json");
    assert!(matches!(auth, AuthMatch::HttpBasic(_)));

    let auth = config.find_for_url("https://unknown.org/repo");
    assert!(auth.is_none());
}

#[test]
fn test_setters_and_removers() {
    let mut config = AuthConfig::new();

    config.set_github_oauth("github.com", "token");
    assert_eq!(config.get_github_oauth("github.com"), Some("token"));

    config.remove_github_oauth("github.com");
    assert_eq!(config.get_github_oauth("github.com"), None);

    config.set_bitbucket_oauth("bitbucket.org", "key", "secret");
    let bb = config.get_bitbucket_oauth("bitbucket.org").unwrap();
    assert_eq!(bb.consumer_key, "key");
    assert_eq!(bb.consumer_secret, "secret");
}

#[test]
fn removed_credentials_are_handed_back() {
    let mut config = AuthConfig::new();
    config.set_bearer("example.org", "token");
    assert_eq!(config.remove_bearer("example.org"), Some("token".to_string()));
    assert_eq!(config.remove_bearer("example.org"), None);
    assert!(config.is_empty());
}

#[test]
fn test_auth_config_from_json() {
    let json = r#"{
        "http-basic": {
            "example.org": {
                "username": "user",
                "password": "pass"
            }
        },
        "github-oauth": {
            "github.com": "ghp_token123"
        },
        "gitlab-token": {
            "gitlab.com": "glpat-token123"
        },
        "bitbucket-oauth": {
            "bitbucket.org": {
                "consumer-key": "key123",
                "consumer-secret": "secret456"
            }
        },
        "bearer": {
            "private.repo.org": "bearer_token"
        }
    }"#;

    let config = AuthConfig::from_json(json).unwrap();

    assert!(!config.is_empty());

    let basic = config.get_http_basic("example.org").unwrap();
    assert_eq!(basic.username, "user");
    assert_eq!(basic.password, "pass");

    assert_eq!(config.get_github_oauth("github.com"), Some("ghp_token123"));
    assert_eq!(
        config.get_gitlab_token("gitlab.com"),
        Some("glpat-token123")
    );
    assert_eq!(config.get_bearer("private.repo.org"), Some("bearer_token"));

    let bb = config.get_bitbucket_oauth("bitbucket.org").unwrap();
    assert_eq!(bb.consumer_key, "key123");
    assert_eq!(bb.consumer_secret, "secret456");
}

#[test]
fn test_gitlab_token_formats() {
    // Simple token format
    let json1 = r#"{
        "gitlab-token": {
            "gitlab.com": "simple_token"
        }
    }"#;
    let config1 = AuthConfig::from_json(json1).unwrap();
    assert_eq!(config1.get_gitlab_token("gitlab.com"), Some("simple_token"));

    // OAuth token format
    let json2 = r#"{
        "gitlab-token": {
            "gitlab.com": {
                "oauth-token": "oauth_token"
            }
        }
    }"#;
    let config2 = AuthConfig::from_json(json2).unwrap();
    assert_eq!(config2.get_gitlab_token("gitlab.com"), Some("oauth_token"));
}

#[test]
fn test_serialize_roundtrip() {
    let mut config = AuthConfig::new();
    config.set_github_oauth("github.com", "token");
    config.set_http_basic("example.org", "user", "pass");

    let json = config.to_json();
    let parsed = AuthConfig::from_json(&json).unwrap();

    assert_eq!(parsed.get_github_oauth("github.com"), Some("token"));
    let basic = parsed.get_http_basic("example.org").unwrap();
    assert_eq!(basic.username, "user");
}

#[test]
fn credentials_are_written_without_empty_sections() {
    let mut config = AuthConfig::new();
    assert_eq!(config.to_json(), "{}");
    config.set_http_basic("example.org", "user", "pass");
    config.set_bearer("example.org", "a \"quoted\" token");
    assert_eq!(
        config.to_json(),
        "{\n  \"http-basic\": {\n    \"example.org\": {\n      \"username\": \"user\",\n      \"password\": \"pass\"\n    }\n  },\n  \"bearer\": {\n    \"example.org\": \"a \\\"quoted\\\" token\"\n  }\n}"
    );
    let again = AuthConfig::from_json(&config.to_json()).unwrap();
    assert_eq!(again.get_bearer("example.org"), Some("a \"quoted\" token"));
    assert_eq!(again.get_github_oauth("example.org"), None);
}

#[test]
fn all_kinds_of_credentials_are_read_back() {
    let mut config = AuthConfig::from_json(
        r#"{"gitlab-token": {"gitlab.com": {"oauth-token": "oauth"}}}"#,
    )
    .unwrap();
    config.set_gitlab_oauth("gitlab.com", "gl");
    config.set_bitbucket_oauth("bitbucket.org", "key", "secret");
    let again = AuthConfig::from_json(&config.to_json()).unwrap();
    assert_eq!(again.get_gitlab_token("gitlab.com"), Some("oauth"));
    assert!(matches!(
        again.gitlab_token.get("gitlab.com"),
        Some(GitLabAuth::OAuth { .. })
    ));
    assert_eq!(again.get_gitlab_oauth("gitlab.com"), Some("gl"));
    assert_eq!(again.get_bitbucket_oauth("bitbucket.org").unwrap().consumer_secret, "secret");
}

#[test]
fn what_is_no_auth_file_is_refused() {
    for text in [
        "no json",
        "7",
        r#"{"bearer": null}"#,
        r#"{"bearer": {"example.org": 7}}"#,
        r#"{"http-basic": {"example.org": {"username": "user"}}}"#,
        r#"{"http-basic": {"example.org": ["user", "pass", "more"]}}"#,
        r#"{"gitlab-token": {"gitlab.com": ["token"]}}"#,
    ] {
        let message = match AuthConfig::from_json(text) {
            Ok(_) => panic!("{text}"),
            Err(error) => error.message(),
        };
        assert!(message.contains("Failed to parse auth.json: "), "{message}");
    }
}

#[test]
fn records_may_be_written_as_arrays() {
    assert!(AuthConfig::from_json("[]").unwrap().is_empty());
    let config =
        AuthConfig::from_json(r#"[{"example.org": ["user", "pass"]}, {"a.org": "token"}]"#).unwrap();
    assert_eq!(config.get_http_basic("example.org").unwrap().password, "pass");
    assert_eq!(config.get_bearer("a.org"), Some("token"));
    assert!(AuthConfig::from_json("[{}, {}, {}, {}, {}, {}, {}]").is_err());
}

#[test]
fn test_composer_auth_env_var() {
    let result = AuthConfig::from_env(Some(r#"{"github-oauth":{"github.com":"env_token"}}"#)).unwrap();
    assert!(result.is_some());

    let config = result.unwrap();
    assert_eq!(config.get_github_oauth("github.com"), Some("env_token"));
}

#[test]
fn test_composer_auth_env_var_empty() {
    let result = AuthConfig::from_env(Some("")).unwrap();
    assert!(result.is_none());
    assert!(AuthConfig::from_env(None).unwrap().is_none());
    assert!(AuthConfig::from_env(Some("{")).is_err());
}

#[test]
fn without_a_file_there_are_no_credentials() {
    assert!(AuthConfig::from_file(None).unwrap().is_empty());
    assert!(AuthConfig::from_file(Some("")).is_err());
    let config = AuthConfig::from_file(Some(r#"{"bearer": {"a.org": "token"}}"#)).unwrap();
    assert_eq!(config.get_bearer("a.org"), Some("token"));
}
