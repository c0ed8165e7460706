//! Requests over HTTP: how a client is configured, when a request is made again, and
//! how credentials are sent along.
use vstd::arithmetic::power2::{lemma2_to64, pow2};
use vstd::prelude::*;
use vstd::string::*;

use crate::config::auth::{AuthConfig, AuthMatch, MatchView};
use crate::text::{decimal, number};

verus! {

// ---------------------------------------------------------------------------
// Spans of time
// ---------------------------------------------------------------------------
/// A span of time.
#[derive(Debug, Clone, Copy, PartialEq, Eq, Structural)]
pub struct Duration {
    pub nanos: u128,
}

/// The longest span: as many seconds as a `u64` counts, and just under one more.
pub const MAX_NANOS: u128 = 18446744073709551615999999999;

impl Duration {
    /// So many seconds.
    pub fn from_secs(secs: u64) -> (r: Duration)
        ensures
            r.nanos == secs * 1000000000,
    {
        Duration { nanos: secs as u128 * 1000000000 }
    }

    /// So many thousandths of a second.
    pub fn from_millis(millis: u64) -> (r: Duration)
        ensures
            r.nanos == millis * 1000000,
    {
        Duration { nanos: millis as u128 * 1000000 }
    }
}

/// The wait before the attempt that follows on `attempt`: it doubles with each.
pub open spec fn backoff_nanos(delay: Duration, attempt: u32) -> int {
    delay.nanos * pow2(attempt as nat)
}

/// The wait before the attempt that follows on `attempt`.
pub fn backoff(delay: Duration, attempt: u32) -> (r: Duration)
    requires
        attempt < 32,
        backoff_nanos(delay, attempt) <= MAX_NANOS,
    ensures
        r.nanos == backoff_nanos(delay, attempt),
{
    let mut nanos: u128 = delay.nanos;
    let mut i: u32 = 0;
    proof {
        lemma2_to64();
    }
    while i < attempt
        invariant
            i <= attempt < 32,
            nanos == delay.nanos * pow2(i as nat),
            backoff_nanos(delay, attempt) <= MAX_NANOS,
        decreases attempt - i,
    {
        proof {
            vstd::arithmetic::power2::lemma_pow2_unfold((i + 1) as nat);
            lemma_pow2_monotone((i + 1) as nat, attempt as nat);
            assert(delay.nanos * pow2((i + 1) as nat) == 2 * (delay.nanos * pow2(i as nat)))
                by (nonlinear_arith)
                requires
                    pow2((i + 1) as nat) == 2 * pow2(i as nat),
            ;
            assert(delay.nanos * pow2((i + 1) as nat) <= delay.nanos * pow2(attempt as nat))
                by (nonlinear_arith)
                requires
                    pow2((i + 1) as nat) <= pow2(attempt as nat),
                    delay.nanos >= 0,
            ;
        }
        nanos = nanos * 2;
        i += 1;
    }
    Duration { nanos }
}

proof fn lemma_pow2_monotone(a: nat, b: nat)
    requires
        a <= b,
    ensures
        pow2(a) <= pow2(b),
    decreases b,
{
    if a < b {
        lemma_pow2_monotone(a, (b - 1) as nat);
        vstd::arithmetic::power2::lemma_pow2_unfold(b);
        vstd::arithmetic::power2::lemma_pow2_pos((b - 1) as nat);
    }
}

/// Each wait is twice the one before.
pub proof fn law_backoff_doubles(delay: Duration, attempt: u32)
    requires
        attempt < u32::MAX,
    ensures
        backoff_nanos(delay, 0) == delay.nanos,
        backoff_nanos(delay, (attempt + 1) as u32) == 2 * backoff_nanos(delay, attempt),
{
    lemma2_to64();
    vstd::arithmetic::power2::lemma_pow2_unfold((attempt + 1) as nat);
    assert(delay.nanos * (2 * pow2(attempt as nat)) == 2 * (delay.nanos * pow2(attempt as nat)))
        by (nonlinear_arith);
}

// ---------------------------------------------------------------------------
// The client
// ---------------------------------------------------------------------------
/// How a client introduces itself.
pub const DEFAULT_USER_AGENT: &'static str = "Composer/2.0 (sonata-core)";

/// How often a request is made again.
pub const DEFAULT_MAX_RETRIES: u32 = 3;

/// How a client is configured.
#[derive(Debug, Clone)]
pub struct HttpClientConfig {
    pub timeout: Duration,
    pub connect_timeout: Duration,
    pub max_retries: u32,
    pub retry_delay: Duration,
    pub proxy: Option<String>,
    pub cafile: Option<String>,
    pub user_agent: String,
    pub auth: Option<AuthConfig>,
}

impl Default for HttpClientConfig {
    fn default() -> (r: HttpClientConfig)
        ensures
            r.timeout.nanos == 30000000000,
            r.connect_timeout.nanos == 10000000000,
            r.max_retries == 3,
            r.retry_delay.nanos == 1000000000,
            r.proxy is None,
            r.cafile is None,
            r.user_agent@ == DEFAULT_USER_AGENT@,
            r.auth is None,
    {
        HttpClientConfig {
            timeout: Duration::from_secs(30),
            connect_timeout: Duration::from_secs(10),
            max_retries: DEFAULT_MAX_RETRIES,
            retry_delay: Duration::from_secs(1),
            proxy: None,
            cafile: None,
            user_agent: DEFAULT_USER_AGENT.to_owned(),
            auth: None,
        }
    }
}

impl HttpClientConfig {
    /// A client as it is by default.
    pub fn new() -> (r: HttpClientConfig)
        ensures
            r.timeout.nanos == 30000000000,
            r.connect_timeout.nanos == 10000000000,
            r.max_retries == 3,
            r.retry_delay.nanos == 1000000000,
            r.proxy is None,
            r.cafile is None,
            r.user_agent@ == DEFAULT_USER_AGENT@,
            r.auth is None,
    {
        HttpClientConfig::default()
    }

    /// With another limit on the time for a request.
    pub fn with_timeout(self, timeout: Duration) -> (r: HttpClientConfig)
        ensures
            r == (HttpClientConfig { timeout, ..self }),
    {
        HttpClientConfig { timeout, ..self }
    }

    /// With another limit on the time for a connection.
    pub fn with_connect_timeout(self, connect_timeout: Duration) -> (r: HttpClientConfig)
        ensures
            r == (HttpClientConfig { connect_timeout, ..self }),
    {
        HttpClientConfig { connect_timeout, ..self }
    }

    /// With another number of further attempts.
    pub fn with_max_retries(self, max_retries: u32) -> (r: HttpClientConfig)
        ensures
            r == (HttpClientConfig { max_retries, ..self }),
    {
        HttpClientConfig { max_retries, ..self }
    }

    /// With another wait before the first further attempt.
    pub fn with_retry_delay(self, retry_delay: Duration) -> (r: HttpClientConfig)
        ensures
            r == (HttpClientConfig { retry_delay, ..self }),
    {
        HttpClientConfig { retry_delay, ..self }
    }

    /// Through a proxy.
    pub fn with_proxy(self, proxy: String) -> (r: HttpClientConfig)
        ensures
            r == (HttpClientConfig { proxy: Some(proxy), ..self }),
    {
        HttpClientConfig { proxy: Some(proxy), ..self }
    }

    /// With certificates of its own.
    pub fn with_cafile(self, cafile: String) -> (r: HttpClientConfig)
        ensures
            r == (HttpClientConfig { cafile: Some(cafile), ..self }),
    {
        HttpClientConfig { cafile: Some(cafile), ..self }
    }

    /// Introducing itself otherwise.
    pub fn with_user_agent(self, user_agent: String) -> (r: HttpClientConfig)
        ensures
            r == (HttpClientConfig { user_agent, ..self }),
    {
        HttpClientConfig { user_agent, ..self }
    }

    /// With credentials.
    pub fn with_auth(self, auth: AuthConfig) -> (r: HttpClientConfig)
        ensures
            r == (HttpClientConfig { auth: Some(auth), ..self }),
    {
        HttpClientConfig { auth: Some(auth), ..self }
    }
}

// ---------------------------------------------------------------------------
// Attempts
// ---------------------------------------------------------------------------
/// What an attempt came to.
#[derive(Debug, Clone, Copy, PartialEq, Eq, Structural)]
pub enum Reply {
    /// A response with a status.
    Status(u16),
    /// No response.
    Failed,
}

/// What follows on an attempt.
#[derive(Debug, Clone, Copy, PartialEq, Eq, Structural)]
pub enum Next {
    /// The response is handed out.
    Accept,
    /// The request fails with the status.
    Reject(u16),
    /// The request is made again after a wait.
    Retry(Duration),
    /// The request fails as its last attempt did.
    GiveUp,
}

/// A status that tells of success.
pub open spec fn success(status: u16) -> bool {
    200 <= status < 300
}

/// A status after which it is worth trying again: an error of the server, or too many
/// requests.
pub open spec fn passing(status: u16) -> bool {
    500 <= status < 600 || status == 429
}

/// What follows on attempt number `attempt`, counted from zero.
pub open spec fn next_of(max_retries: u32, delay: Duration, attempt: u32, reply: Reply) -> Next {
    match reply {
        Reply::Status(status) if success(status) => Next::Accept,
        Reply::Status(status) if !passing(status) => Next::Reject(status),
        _ => if attempt < max_retries {
            Next::Retry(Duration { nanos: backoff_nanos(delay, attempt) as u128 })
        } else {
            Next::GiveUp
        },
    }
}

/// What follows on attempt number `attempt`, counted from zero.
pub fn after_attempt(max_retries: u32, delay: Duration, attempt: u32, reply: Reply) -> (r: Next)
    requires
        attempt < max_retries ==> attempt < 32 && backoff_nanos(delay, attempt) <= MAX_NANOS,
    ensures
        r == next_of(max_retries, delay, attempt, reply),
{
    if let Reply::Status(status) = reply {
        if 200 <= status && status < 300 {
            return Next::Accept;
        }
        if !((500 <= status && status < 600) || status == 429) {
            return Next::Reject(status);
        }
    }
    if attempt < max_retries {
        Next::Retry(backoff(delay, attempt))
    } else {
        Next::GiveUp
    }
}

/// An error of the client is never tried again, but for too many requests.
pub proof fn law_client_errors_are_final(max_retries: u32, delay: Duration, attempt: u32, status: u16)
    requires
        400 <= status < 500,
        status != 429,
    ensures
        next_of(max_retries, delay, attempt, Reply::Status(status)) == Next::Reject(status),
{
}

/// There are at most `max_retries` further attempts.
pub proof fn law_attempts_are_bounded(max_retries: u32, delay: Duration, attempt: u32, reply: Reply)
    requires
        attempt >= max_retries,
    ensures
        !(next_of(max_retries, delay, attempt, reply) is Retry),
{
}

/// Why a request failed.
#[derive(Debug, Clone)]
pub enum HttpError {
    Request(String),
    HttpStatus { status: u16, url: String },
    Io(String),
    MaxRetries { url: String },
    JsonParse(String),
}

impl HttpError {
    /// The message for the user.
    pub fn message(&self) -> (r: String)
        ensures
            r@ == match *self {
                HttpError::Request(m) => "Request failed: "@ + m@,
                HttpError::HttpStatus { status, url } => "HTTP "@ + decimal(status as nat) + ": "@
                    + url@,
                HttpError::Io(m) => "IO error: "@ + m@,
                HttpError::MaxRetries { url } => "Max retries exceeded for "@ + url@,
                HttpError::JsonParse(m) => "JSON deserialization error: "@ + m@,
            },
    {
        match self {
            HttpError::Request(m) => "Request failed: ".to_owned().concat(m.as_str()),
            HttpError::HttpStatus { status, url } => "HTTP ".to_owned().concat(
                number(*status as u64).as_str(),
            ).concat(": ").concat(url.as_str()),
            HttpError::Io(m) => "IO error: ".to_owned().concat(m.as_str()),
            HttpError::MaxRetries { url } => "Max retries exceeded for ".to_owned().concat(
                url.as_str(),
            ),
            HttpError::JsonParse(m) => "JSON deserialization error: ".to_owned().concat(
                m.as_str(),
            ),
        }
    }
}

// ---------------------------------------------------------------------------
// Credentials
// ---------------------------------------------------------------------------
/// What a request carries to show who makes it.
#[derive(Debug, Clone)]
pub enum Authorization<'a> {
    Nothing,
    /// A user name and a password.
    Basic(&'a str, &'a str),
    /// A bearer token.
    Bearer(&'a str),
    /// The header `PRIVATE-TOKEN`.
    PrivateToken(&'a str),
}

/// How credentials are sent: tokens for GitHub as bearer tokens, those for GitLab in a
/// header of their own, the key and the secret for Bitbucket as user and password.
pub fn authorization<'a>(found: &AuthMatch<'a>) -> (r: Authorization<'a>)
    ensures
        match found@ {
            MatchView::Missing => r is Nothing,
            MatchView::HttpBasic(c) => r matches Authorization::Basic(u, p) && u@ == c.username@
                && p@ == c.password@,
            MatchView::Bearer(t) => r matches Authorization::Bearer(u) && u@ == t,
            MatchView::GitHubOAuth(t) => r matches Authorization::Bearer(u) && u@ == t,
            MatchView::GitLabToken(t) => r matches Authorization::PrivateToken(u) && u@ == t,
            MatchView::BitbucketOAuth(c) => r matches Authorization::Basic(u, p) && u@
                == c.consumer_key@ && p@ == c.consumer_secret@,
        },
{
    match found {
        AuthMatch::Missing => Authorization::Nothing,
        AuthMatch::HttpBasic(c) => Authorization::Basic(c.username.as_str(), c.password.as_str()),
        AuthMatch::Bearer(t) => Authorization::Bearer(t),
        AuthMatch::GitHubOAuth(t) => Authorization::Bearer(t),
        AuthMatch::GitLabToken(t) => Authorization::PrivateToken(t),
        AuthMatch::BitbucketOAuth(c) => Authorization::Basic(
            c.consumer_key.as_str(),
            c.consumer_secret.as_str(),
        ),
    }
}

} // verus!
