//! The HTTP client: its configuration, retries and credentials.
use sonata::config::auth::{
    AuthConfig, AuthMatch, BitbucketOAuthCredentials, GitLabAuth, HttpBasicCredentials,
};
use sonata::http::{
    after_attempt, authorization, backoff, Authorization, Duration, HttpClientConfig, HttpError,
    Next, Reply, DEFAULT_USER_AGENT,
};

#[test]
fn test_config_builder() {
    let config = HttpClientConfig::new()
        .with_timeout(Duration::from_secs(60))
        .with_max_retries(5)
        .with_user_agent("Test/1.0".to_string());

    assert_eq!(config.timeout, Duration::from_secs(60));
    assert_eq!(config.max_retries, 5);
    assert_eq!(config.user_agent, "Test/1.0");
}

#[test]
fn test_auth_config_with_github_oauth() {
    let mut auth = AuthConfig::default();
    auth.github_oauth
        .insert("github.com".to_string(), "ghp_token123".to_string());

    let config = HttpClientConfig::new().with_auth(auth);
    assert!(config.auth.is_some());

    let auth = config.auth.as_ref().unwrap();
    assert_eq!(auth.get_github_oauth("github.com"), Some("ghp_token123"));
}

#[test]
fn test_auth_config_with_gitlab_token() {
    let mut auth = AuthConfig::default();
    auth.gitlab_token.insert(
        "gitlab.com".to_string(),
        GitLabAuth::Token("glpat-token".to_string()),
    );

    let config = HttpClientConfig::new().with_auth(auth);
    assert!(config.auth.is_some());

    let auth = config.auth.as_ref().unwrap();
    assert_eq!(auth.get_gitlab_token("gitlab.com"), Some("glpat-token"));
}

#[test]
fn test_auth_config_with_bitbucket_oauth() {
    let mut auth = AuthConfig::default();
    auth.bitbucket_oauth.insert(
        "bitbucket.org".to_string(),
        BitbucketOAuthCredentials {
            consumer_key: "my_key".to_string(),
            consumer_secret: "my_secret".to_string(),
        },
    );

    let config = HttpClientConfig::new().with_auth(auth);
    let auth = config.auth.as_ref().unwrap();

    let creds = auth.get_bitbucket_oauth("bitbucket.org").unwrap();
    assert_eq!(creds.consumer_key, "my_key");
    assert_eq!(creds.consumer_secret, "my_secret");
}

#[test]
fn test_auth_config_with_http_basic() {
    let mut auth = AuthConfig::default();
    auth.http_basic.insert(
        "private.example.org".to_string(),
        HttpBasicCredentials {
            username: "user".to_string(),
            password: "pass".to_string(),
        },
    );

    let config = HttpClientConfig::new().with_auth(auth);
    let auth = config.auth.as_ref().unwrap();

    let creds = auth.get_http_basic("private.example.org").unwrap();
    assert_eq!(creds.username, "user");
    assert_eq!(creds.password, "pass");
}

#[test]
fn test_auth_config_with_bearer() {
    let mut auth = AuthConfig::default();
    auth.bearer.insert(
        "api.example.org".to_string(),
        "bearer_token_xyz".to_string(),
    );

    let config = HttpClientConfig::new().with_auth(auth);
    let auth = config.auth.as_ref().unwrap();

    assert_eq!(auth.get_bearer("api.example.org"), Some("bearer_token_xyz"));
}

#[test]
fn test_auth_find_for_github_url() {
    let mut auth = AuthConfig::default();
    auth.github_oauth
        .insert("github.com".to_string(), "ghp_token".to_string());

    let result = auth.find_for_url("https://github.com/owner/repo");
    assert!(matches!(result, AuthMatch::GitHubOAuth("ghp_token")));

    let result = auth.find_for_url("https://api.github.com/repos/owner/repo");
    assert!(matches!(result, AuthMatch::GitHubOAuth("ghp_token")));

    let result = auth.find_for_url("https://raw.githubusercontent.com/owner/repo/main/file.txt");
    assert!(matches!(result, AuthMatch::GitHubOAuth("ghp_token")));
}

#[test]
fn test_auth_find_for_gitlab_url() {
    let mut auth = AuthConfig::default();
    auth.gitlab_token.insert(
        "gitlab.com".to_string(),
        GitLabAuth::Token("glpat-token".to_string()),
    );

    let result = auth.find_for_url("https://gitlab.com/group/project");
    assert!(matches!(result, AuthMatch::GitLabToken("glpat-token")));
}

#[test]
fn test_auth_find_for_bitbucket_url() {
    let mut auth = AuthConfig::default();
    auth.bitbucket_oauth.insert(
        "bitbucket.org".to_string(),
        BitbucketOAuthCredentials {
            consumer_key: "key".to_string(),
            consumer_secret: "secret".to_string(),
        },
    );

    let result = auth.find_for_url("https://bitbucket.org/owner/repo");
    assert!(matches!(result, AuthMatch::BitbucketOAuth(_)));

    if let AuthMatch::BitbucketOAuth(creds) = result {
        assert_eq!(creds.consumer_key, "key");
    }
}

#[test]
fn test_auth_http_basic_takes_priority() {
    let mut auth = AuthConfig::default();
    auth.http_basic.insert(
        "github.com".to_string(),
        HttpBasicCredentials {
            username: "user".to_string(),
            password: "pass".to_string(),
        },
    );
    auth.github_oauth
        .insert("github.com".to_string(), "ghp_token".to_string());

    let result = auth.find_for_url("https://github.com/owner/repo");
    assert!(matches!(result, AuthMatch::HttpBasic(_)));
}

#[test]
fn test_auth_no_match_returns_none() {
    let auth = AuthConfig::default();
    let result = auth.find_for_url("https://unknown.example.org/path");
    assert!(matches!(result, AuthMatch::Missing));
}

#[test]
fn client_test_default_config() {
    let config = HttpClientConfig::default();

    assert_eq!(config.timeout, Duration::from_secs(30));
    assert_eq!(config.connect_timeout, Duration::from_secs(10));
    assert_eq!(config.max_retries, 3);
    assert_eq!(config.retry_delay, Duration::from_secs(1));
    assert_eq!(config.user_agent, DEFAULT_USER_AGENT);
    assert!(config.proxy.is_none());
    assert!(config.cafile.is_none());
}

#[test]
fn test_http_error_display() {
    let err = HttpError::HttpStatus {
        status: 404,
        url: "https://example.com/not-found".to_string(),
    };
    assert_eq!(err.message(), "HTTP 404: https://example.com/not-found");

    let err = HttpError::MaxRetries {
        url: "https://example.com/timeout".to_string(),
    };
    assert_eq!(
        err.message(),
        "Max retries exceeded for https://example.com/timeout"
    );

    let err = HttpError::JsonParse("unexpected token".to_string());
    assert_eq!(err.message(), "JSON deserialization error: unexpected token");
}

#[test]
fn other_errors_tell_their_cause() {
    assert_eq!(HttpError::Request("no route".to_string()).message(), "Request failed: no route");
    assert_eq!(HttpError::Io("disk full".to_string()).message(), "IO error: disk full");
}

#[test]
fn test_config_with_proxy() {
    let config = HttpClientConfig::new().with_proxy("http://proxy.example.com:8080".to_string());

    assert_eq!(config.proxy, Some("http://proxy.example.com:8080".to_string()));
}

#[test]
fn test_config_with_cafile() {
    let config = HttpClientConfig::new().with_cafile("/path/to/ca.crt".to_string());

    assert_eq!(config.cafile, Some("/path/to/ca.crt".to_string()));
}

#[test]
fn test_config_with_retry_delay() {
    let config = HttpClientConfig::new().with_retry_delay(Duration::from_millis(500));

    assert_eq!(config.retry_delay, Duration::from_millis(500));
}

#[test]
fn test_config_with_connect_timeout() {
    let config = HttpClientConfig::new().with_connect_timeout(Duration::from_secs(5));

    assert_eq!(config.connect_timeout, Duration::from_secs(5));
}

#[test]
fn test_config_all_builder_methods() {
    let auth = AuthConfig::default();
    let config = HttpClientConfig::new()
        .with_timeout(Duration::from_secs(120))
        .with_connect_timeout(Duration::from_secs(15))
        .with_max_retries(10)
        .with_retry_delay(Duration::from_millis(200))
        .with_proxy("http://proxy:8080".to_string())
        .with_cafile("/ca.pem".to_string())
        .with_user_agent("CustomAgent/1.0".to_string())
        .with_auth(auth);

    assert_eq!(config.timeout, Duration::from_secs(120));
    assert_eq!(config.connect_timeout, Duration::from_secs(15));
    assert_eq!(config.max_retries, 10);
    assert_eq!(config.retry_delay, Duration::from_millis(200));
    assert_eq!(config.proxy, Some("http://proxy:8080".to_string()));
    assert_eq!(config.cafile, Some("/ca.pem".to_string()));
    assert_eq!(config.user_agent, "CustomAgent/1.0");
    assert!(config.auth.is_some());
}

#[test]
fn test_github_subdomain_auth() {
    let mut auth = AuthConfig::default();
    auth.github_oauth
        .insert("github.com".to_string(), "token".to_string());

    let result = auth.find_for_url("https://codeload.github.com/owner/repo/zip/refs/heads/main");
    assert!(matches!(result, AuthMatch::GitHubOAuth("token")));
}

#[test]
fn test_gitlab_self_hosted() {
    let mut auth = AuthConfig::default();
    auth.gitlab_token.insert(
        "gitlab.mycompany.com".to_string(),
        GitLabAuth::Token("private-token".to_string()),
    );

    let result = auth.find_for_url("https://gitlab.mycompany.com/group/project");
    assert!(matches!(result, AuthMatch::GitLabToken("private-token")));
}

#[test]
fn test_bearer_auth_for_custom_domain() {
    let mut auth = AuthConfig::default();
    auth.bearer.insert(
        "packages.mycompany.com".to_string(),
        "secret-token".to_string(),
    );

    let result = auth.find_for_url("https://packages.mycompany.com/composer/packages.json");
    assert!(matches!(result, AuthMatch::Bearer("secret-token")));
}

#[test]
fn test_http_basic_for_private_packagist() {
    let mut auth = AuthConfig::default();
    auth.http_basic.insert(
        "repo.packagist.com".to_string(),
        HttpBasicCredentials {
            username: "token".to_string(),
            password: "secret123".to_string(),
        },
    );

    let result = auth.find_for_url("https://repo.packagist.com/myorg/packages.json");
    assert!(matches!(result, AuthMatch::HttpBasic(_)));

    if let AuthMatch::HttpBasic(creds) = result {
        assert_eq!(creds.username, "token");
        assert_eq!(creds.password, "secret123");
    }
}

#[test]
fn test_retry_config_zero_retries() {
    let config = HttpClientConfig::new().with_max_retries(0);
    assert_eq!(config.max_retries, 0);
}

#[test]
fn test_retry_config_high_retries() {
    let config = HttpClientConfig::new().with_max_retries(100);
    assert_eq!(config.max_retries, 100);
}

#[test]
fn test_exponential_backoff_calculation() {
    let base_delay = Duration::from_secs(1);

    assert_eq!(backoff(base_delay, 0), Duration::from_secs(1));
    assert_eq!(backoff(base_delay, 1), Duration::from_secs(2));
    assert_eq!(backoff(base_delay, 2), Duration::from_secs(4));
    assert_eq!(backoff(base_delay, 3), Duration::from_secs(8));
}

#[test]
fn test_auth_match_is_some() {
    let auth = AuthMatch::Bearer("token");
    assert!(auth.is_some());
    assert!(!auth.is_none());
}

#[test]
fn test_auth_match_is_none() {
    let auth = AuthMatch::Missing;
    assert!(!auth.is_some());
    assert!(auth.is_none());
}

#[test]
fn test_auth_match_variants() {
    let _none = AuthMatch::Missing;

    let creds = HttpBasicCredentials {
        username: "u".to_string(),
        password: "p".to_string(),
    };
    let _basic = AuthMatch::HttpBasic(&creds);
    let _bearer = AuthMatch::Bearer("token");
    let _github = AuthMatch::GitHubOAuth("ghp_xxx");
    let _gitlab = AuthMatch::GitLabToken("glpat-xxx");

    let bb_creds = BitbucketOAuthCredentials {
        consumer_key: "key".to_string(),
        consumer_secret: "secret".to_string(),
    };
    let _bitbucket = AuthMatch::BitbucketOAuth(&bb_creds);
}

#[test]
fn successful_responses_are_handed_out() {
    let delay = Duration::from_secs(1);
    assert_eq!(after_attempt(3, delay, 0, Reply::Status(200)), Next::Accept);
    assert_eq!(after_attempt(3, delay, 2, Reply::Status(299)), Next::Accept);
}

#[test]
fn client_errors_are_final() {
    let delay = Duration::from_secs(1);
    assert_eq!(after_attempt(3, delay, 0, Reply::Status(404)), Next::Reject(404));
    assert_eq!(after_attempt(3, delay, 0, Reply::Status(300)), Next::Reject(300));
    assert_eq!(
        after_attempt(3, delay, 0, Reply::Status(429)),
        Next::Retry(Duration::from_secs(1))
    );
}

#[test]
fn attempts_are_bounded_and_waits_double() {
    let delay = Duration::from_millis(500);
    assert_eq!(
        after_attempt(3, delay, 2, Reply::Status(503)),
        Next::Retry(Duration::from_secs(2))
    );
    assert_eq!(after_attempt(3, delay, 3, Reply::Status(503)), Next::GiveUp);
    assert_eq!(after_attempt(3, delay, 3, Reply::Failed), Next::GiveUp);
    assert_eq!(
        after_attempt(3, delay, 0, Reply::Failed),
        Next::Retry(Duration::from_millis(500))
    );
    assert_eq!(after_attempt(0, delay, 0, Reply::Failed), Next::GiveUp);
}

#[test]
fn credentials_are_sent_as_each_service_wants_them() {
    assert!(matches!(
        authorization(&AuthMatch::GitHubOAuth("t")),
        Authorization::Bearer("t")
    ));
    assert!(matches!(
        authorization(&AuthMatch::GitLabToken("t")),
        Authorization::PrivateToken("t")
    ));
    let creds = BitbucketOAuthCredentials {
        consumer_key: "key".to_string(),
        consumer_secret: "secret".to_string(),
    };
    assert!(matches!(
        authorization(&AuthMatch::BitbucketOAuth(&creds)),
        Authorization::Basic("key", "secret")
    ));
    assert!(matches!(authorization(&AuthMatch::Missing), Authorization::Nothing));
}
