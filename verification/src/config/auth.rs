//! Credentials by domain, and which of them a request is made with.
use vstd::prelude::*;
use vstd::string::*;

use crate::paths::{join_path, joined_path};
use crate::text::{
    after, before, contains, ends_with, halves, has_infix, has_suffix, lemma_views_push, lowercase,
    sides, split_once, split_text, str_equal, strip_prefix, to_lowercase, views, without_prefix,
};

verus! {

// ---------------------------------------------------------------------------
// Values by domain
// ---------------------------------------------------------------------------
/// Values by domain.
#[derive(Debug, Clone)]
pub struct DomainMap<T> {
    entries: Vec<(String, T)>,
}

/// The position of the first entry with the domain; the number of entries where
/// there is none.
pub open spec fn domain_at<T>(s: Seq<(String, T)>, domain: Seq<char>) -> int
    decreases s.len(),
{
    if s.len() == 0 || s[0].0@ == domain {
        0
    } else {
        1 + domain_at(s.drop_first(), domain)
    }
}

/// There is an entry with the domain.
pub open spec fn has_domain<T>(s: Seq<(String, T)>, domain: Seq<char>) -> bool {
    exists|i: int| 0 <= i < s.len() && (#[trigger] s[i]).0@ == domain
}

/// The values that a list of entries gives.
pub open spec fn by_domain<T>(s: Seq<(String, T)>) -> Map<Seq<char>, T> {
    Map::new(|d: Seq<char>| has_domain(s, d), |d: Seq<char>| s[domain_at(s, d)].1)
}

proof fn lemma_domain_at<T>(s: Seq<(String, T)>, domain: Seq<char>)
    ensures
        0 <= domain_at(s, domain) <= s.len(),
        has_domain(s, domain) == (domain_at(s, domain) < s.len()),
        has_domain(s, domain) ==> s[domain_at(s, domain)].0@ == domain,
        forall|i: int| 0 <= i < domain_at(s, domain) ==> (#[trigger] s[i]).0@ != domain,
    decreases s.len(),
{
    if s.len() > 0 && s[0].0@ != domain {
        let rest = s.drop_first();
        lemma_domain_at(rest, domain);
        assert forall|i: int| 0 <= i < domain_at(s, domain) implies (#[trigger] s[i]).0@
            != domain by {
            if i > 0 {
                assert(s[i] == rest[i - 1]);
            }
        }
        if has_domain(s, domain) {
            let i = choose|i: int| 0 <= i < s.len() && (#[trigger] s[i]).0@ == domain;
            assert(rest[i - 1] == s[i]);
        }
        if domain_at(rest, domain) < rest.len() {
            assert(rest[domain_at(rest, domain)] == s[domain_at(s, domain)]);
        }
    }
}

proof fn lemma_domain_at_unique<T>(s: Seq<(String, T)>, domain: Seq<char>, at: int)
    requires
        0 <= at <= s.len(),
        forall|i: int| 0 <= i < at ==> (#[trigger] s[i]).0@ != domain,
        at < s.len() ==> s[at].0@ == domain,
    ensures
        domain_at(s, domain) == at,
        has_domain(s, domain) == (at < s.len()),
{
    lemma_domain_at(s, domain);
    if domain_at(s, domain) < at {
        assert(s[domain_at(s, domain)].0@ != domain);
    }
    if at < domain_at(s, domain) {
        assert(s[at].0@ != domain);
    }
}

impl<T> View for DomainMap<T> {
    type V = Map<Seq<char>, T>;

    closed spec fn view(&self) -> Map<Seq<char>, T> {
        by_domain(self.entries@)
    }
}

impl<T> DomainMap<T> {
    /// No values.
    pub fn new() -> (r: DomainMap<T>)
        ensures
            r@ == Map::<Seq<char>, T>::empty(),
    {
        let r = DomainMap { entries: Vec::new() };
        assert(r@ =~= Map::<Seq<char>, T>::empty());
        r
    }

    fn find(&self, domain: &str) -> (r: usize)
        ensures
            r == domain_at(self.entries@, domain@),
            r <= self.entries.len(),
            has_domain(self.entries@, domain@) == (r < self.entries.len()),
            forall|i: int| 0 <= i < r ==> (#[trigger] self.entries@[i]).0@ != domain@,
    {
        let mut i: usize = 0;
        while i < self.entries.len() && !str_equal(self.entries[i].0.as_str(), domain)
            invariant
                i <= self.entries.len(),
                forall|k: int| 0 <= k < i ==> (#[trigger] self.entries@[k]).0@ != domain@,
            decreases self.entries.len() - i,
        {
            i += 1;
        }
        proof {
            lemma_domain_at_unique(self.entries@, domain@, i as int);
        }
        i
    }

    /// The domains that have a value, each once.
    pub fn domains(&self) -> (r: Vec<String>)
        ensures
            forall|d: Seq<char>| #[trigger]
                self@.dom().contains(d) <==> views(r@).contains(d),
            forall|i: int, j: int|
                0 <= i < j < r@.len() ==> (#[trigger] r@[i])@ != (#[trigger] r@[j])@,
    {
        let ghost s = self.entries@;
        let mut out: Vec<String> = Vec::new();
        let mut i: usize = 0;
        while i < self.entries.len()
            invariant
                i <= self.entries.len(),
                s == self.entries@,
                forall|k: int| 0 <= k < i ==> views(out@).contains((#[trigger] s[k]).0@),
                forall|k: int| 0 <= k < out@.len() ==> has_domain(s, (#[trigger] out@[k])@),
                forall|k: int, l: int|
                    0 <= k < l < out@.len() ==> (#[trigger] out@[k])@ != (#[trigger] out@[l])@,
            decreases self.entries.len() - i,
        {
            let domain = self.entries[i].0.as_str();
            let ghost before = views(out@);
            let mut known = false;
            let mut j: usize = 0;
            while j < out.len()
                invariant
                    j <= out.len(),
                    known == exists|k: int| 0 <= k < j && (#[trigger] out@[k])@ == domain@,
                decreases out.len() - j,
            {
                if str_equal(out[j].as_str(), domain) {
                    known = true;
                }
                j += 1;
            }
            if known {
                let ghost k = choose|k: int| 0 <= k < out@.len() && (#[trigger] out@[k])@ == domain@;
                assert(views(out@)[k] == domain@);
            } else {
                let one = domain.to_owned();
                proof {
                    lemma_views_push(out@, one);
                }
                out.push(one);
                assert(views(out@)[before.len() as int] == domain@);
                assert forall|k: int| 0 <= k < i implies views(out@).contains(
                    (#[trigger] s[k]).0@,
                ) by {
                    let m = choose|m: int| 0 <= m < before.len() && before[m] == s[k].0@;
                    assert(views(out@)[m] == s[k].0@);
                }
            }
            i += 1;
        }
        assert forall|d: Seq<char>| #[trigger] self@.dom().contains(d) implies views(
            out@,
        ).contains(d) by {
            let k = choose|k: int| 0 <= k < s.len() && (#[trigger] s[k]).0@ == d;
            assert(views(out@).contains(s[k].0@));
        }
        assert forall|d: Seq<char>| views(out@).contains(d) implies #[trigger] self@.dom().contains(
            d,
        ) by {
            let k = choose|k: int| 0 <= k < views(out@).len() && views(out@)[k] == d;
            assert(views(out@)[k] == out@[k]@);
        }
        out
    }

    /// The value for a domain.
    pub fn get(&self, domain: &str) -> (r: Option<&T>)
        ensures
            r.is_some() == self@.dom().contains(domain@),
            r matches Some(v) ==> *v == self@[domain@],
    {
        let at: usize = self.find(domain);
        if at < self.entries.len() {
            Some(&self.entries[at].1)
        } else {
            None
        }
    }

    /// Whether there are no values.
    pub fn is_empty(&self) -> (r: bool)
        ensures
            r == (self@ == Map::<Seq<char>, T>::empty()),
    {
        let r = self.entries.len() == 0;
        proof {
            if r {
                assert(self@ =~= Map::<Seq<char>, T>::empty());
            } else {
                assert(has_domain(self.entries@, self.entries@[0].0@));
                assert(self@.dom().contains(self.entries@[0].0@));
            }
        }
        r
    }

    /// Sets the value for a domain.
    pub fn insert(&mut self, domain: String, value: T)
        ensures
            final(self)@ == old(self)@.insert(domain@, value),
    {
        let ghost s = self.entries@;
        let at: usize = self.find(domain.as_str());
        if at < self.entries.len() {
            self.entries[at] = (domain, value);
        } else {
            self.entries.push((domain, value));
        }
        let ghost t = self.entries@;
        proof {
            lemma_domain_at(s, domain@);
            assert(t[at as int].0@ == domain@);
            assert forall|d: Seq<char>| has_domain(t, d) == (d == domain@ || has_domain(s, d))
                && (has_domain(t, d) ==> t[domain_at(t, d)].1 == if d == domain@ {
                    value
                } else {
                    s[domain_at(s, d)].1
                }) by {
                lemma_domain_at(s, d);
                if d == domain@ {
                    assert forall|i: int| 0 <= i < at implies (#[trigger] t[i]).0@ != d by {
                        assert(s[i].0@ != d);
                    }
                    lemma_domain_at_unique(t, d, at as int);
                } else {
                    let m = domain_at(s, d);
                    if m < s.len() {
                        assert forall|i: int| 0 <= i < m implies (#[trigger] t[i]).0@ != d by {
                            assert(s[i].0@ != d);
                        }
                        assert(m != at);
                        assert(t[m] == s[m]);
                        lemma_domain_at_unique(t, d, m);
                    } else {
                        assert forall|i: int| 0 <= i < t.len() implies (#[trigger] t[i]).0@
                            != d by {
                            if i < s.len() {
                                assert(s[i].0@ != d);
                            }
                        }
                        lemma_domain_at_unique(t, d, t.len() as int);
                    }
                }
            }
            assert(by_domain(t) =~= by_domain(s).insert(domain@, value));
        }
    }

    /// Removes the value for a domain and hands it out.
    pub fn remove(&mut self, domain: &str) -> (r: Option<T>)
        ensures
            final(self)@ == old(self)@.remove(domain@),
            r.is_some() == old(self)@.dom().contains(domain@),
            r matches Some(v) ==> v == old(self)@[domain@],
    {
        let ghost start = self@;
        let at: usize = self.find(domain);
        if at == self.entries.len() {
            assert(self@.remove(domain@) =~= self@);
            return None;
        }
        let ghost s = self.entries@;
        let (_, value) = self.entries.remove(at);
        proof {
            lemma_removed(s, domain@, at as int);
        }
        let mut next: usize = self.find(domain);
        while next < self.entries.len()
            invariant
                next == domain_at(self.entries@, domain@),
                next <= self.entries.len(),
                has_domain(self.entries@, domain@) == (next < self.entries.len()),
                start.remove(domain@) == by_domain(self.entries@).remove(domain@),
            decreases self.entries.len(),
        {
            let ghost t = self.entries@;
            proof {
                lemma_removed(t, domain@, next as int);
            }
            self.entries.remove(next);
            next = self.find(domain);
        }
        proof {
            assert(by_domain(self.entries@).remove(domain@) =~= by_domain(self.entries@));
        }
        Some(value)
    }
}

/// Without its first entry for a domain, a list gives the same for the others.
proof fn lemma_removed<T>(s: Seq<(String, T)>, domain: Seq<char>, at: int)
    requires
        at == domain_at(s, domain),
        at < s.len(),
    ensures
        by_domain(s.remove(at)).remove(domain) == by_domain(s).remove(domain),
{
    lemma_domain_at(s, domain);
    let t = s.remove(at);
    assert forall|d: Seq<char>| d != domain implies has_domain(t, d) == has_domain(s, d) && (
    has_domain(s, d) ==> t[domain_at(t, d)].1 == s[domain_at(s, d)].1) by {
        lemma_domain_at(s, d);
        let m = domain_at(s, d);
        let n = if m < at {
            m
        } else {
            m - 1
        };
        assert forall|i: int| 0 <= i < n implies (#[trigger] t[i]).0@ != d by {
            if i < at {
                assert(t[i] == s[i]);
            } else {
                assert(t[i] == s[i + 1]);
            }
        }
        lemma_domain_at_unique(t, d, n);
    }
    assert(by_domain(t).remove(domain) =~= by_domain(s).remove(domain));
}

// ---------------------------------------------------------------------------
// Credentials
// ---------------------------------------------------------------------------
/// A user name and a password.
#[derive(Debug, Clone, PartialEq, Eq)]
pub struct HttpBasicCredentials {
    pub username: String,
    pub password: String,
}

/// A token for GitLab, plain or for OAuth.
#[derive(Debug, Clone, PartialEq, Eq)]
pub enum GitLabAuth {
    Token(String),
    OAuth { oauth_token: String },
}

impl GitLabAuth {
    /// The token in either form.
    pub open spec fn text(&self) -> Seq<char> {
        match self {
            GitLabAuth::Token(t) => t@,
            GitLabAuth::OAuth { oauth_token } => oauth_token@,
        }
    }

    /// The token in either form.
    pub fn token(&self) -> (r: &str)
        ensures
            r@ == self.text(),
    {
        match self {
            GitLabAuth::Token(t) => t.as_str(),
            GitLabAuth::OAuth { oauth_token } => oauth_token.as_str(),
        }
    }
}

/// A key and a secret for Bitbucket.
#[derive(Debug, Clone, PartialEq, Eq)]
pub struct BitbucketOAuthCredentials {
    pub consumer_key: String,
    pub consumer_secret: String,
}

/// All credentials.
#[derive(Debug, Clone)]
pub struct AuthConfig {
    pub http_basic: DomainMap<HttpBasicCredentials>,
    pub bearer: DomainMap<String>,
    pub github_oauth: DomainMap<String>,
    pub gitlab_oauth: DomainMap<String>,
    pub gitlab_token: DomainMap<GitLabAuth>,
    pub bitbucket_oauth: DomainMap<BitbucketOAuthCredentials>,
}

impl Default for AuthConfig {
    fn default() -> (r: AuthConfig)
        ensures
            r.nothing(),
    {
        AuthConfig::new()
    }
}

impl AuthConfig {
    /// There are no credentials.
    pub open spec fn nothing(&self) -> bool {
        &&& self.http_basic@ == Map::<Seq<char>, HttpBasicCredentials>::empty()
        &&& self.bearer@ == Map::<Seq<char>, String>::empty()
        &&& self.github_oauth@ == Map::<Seq<char>, String>::empty()
        &&& self.gitlab_oauth@ == Map::<Seq<char>, String>::empty()
        &&& self.gitlab_token@ == Map::<Seq<char>, GitLabAuth>::empty()
        &&& self.bitbucket_oauth@ == Map::<Seq<char>, BitbucketOAuthCredentials>::empty()
    }

    /// No credentials.
    pub fn new() -> (r: AuthConfig)
        ensures
            r.nothing(),
    {
        AuthConfig {
            http_basic: DomainMap::new(),
            bearer: DomainMap::new(),
            github_oauth: DomainMap::new(),
            gitlab_oauth: DomainMap::new(),
            gitlab_token: DomainMap::new(),
            bitbucket_oauth: DomainMap::new(),
        }
    }

    /// Whether there are no credentials.
    pub fn is_empty(&self) -> (r: bool)
        ensures
            r == self.nothing(),
    {
        self.http_basic.is_empty() && self.bearer.is_empty() && self.github_oauth.is_empty()
            && self.gitlab_oauth.is_empty() && self.gitlab_token.is_empty()
            && self.bitbucket_oauth.is_empty()
    }

    /// The credentials for a domain.
    pub fn get_http_basic(&self, domain: &str) -> (r: Option<&HttpBasicCredentials>)
        ensures
            r.is_some() == self.http_basic@.dom().contains(domain@),
            r matches Some(c) ==> *c == self.http_basic@[domain@],
    {
        self.http_basic.get(domain)
    }

    /// The credentials for a domain.
    pub fn get_bitbucket_oauth(&self, domain: &str) -> (r: Option<&BitbucketOAuthCredentials>)
        ensures
            r.is_some() == self.bitbucket_oauth@.dom().contains(domain@),
            r matches Some(c) ==> *c == self.bitbucket_oauth@[domain@],
    {
        self.bitbucket_oauth.get(domain)
    }

    /// The token for a domain: a bearer token.
    pub fn get_bearer(&self, domain: &str) -> (r: Option<&str>)
        ensures
            r.is_some() == self.bearer@.dom().contains(domain@),
            r matches Some(t) ==> t@ == self.bearer@[domain@]@,
    {
        match self.bearer.get(domain) {
            Some(t) => Some(t.as_str()),
            None => None,
        }
    }

    /// The token for a domain: a token for GitHub.
    pub fn get_github_oauth(&self, domain: &str) -> (r: Option<&str>)
        ensures
            r.is_some() == self.github_oauth@.dom().contains(domain@),
            r matches Some(t) ==> t@ == self.github_oauth@[domain@]@,
    {
        match self.github_oauth.get(domain) {
            Some(t) => Some(t.as_str()),
            None => None,
        }
    }

    /// The token for a domain: an OAuth token for GitLab.
    pub fn get_gitlab_oauth(&self, domain: &str) -> (r: Option<&str>)
        ensures
            r.is_some() == self.gitlab_oauth@.dom().contains(domain@),
            r matches Some(t) ==> t@ == self.gitlab_oauth@[domain@]@,
    {
        match self.gitlab_oauth.get(domain) {
            Some(t) => Some(t.as_str()),
            None => None,
        }
    }

    /// The token for GitLab on a domain: a private one first, else one for OAuth.
    pub open spec fn gitlab_text(&self, domain: Seq<char>) -> Option<Seq<char>> {
        if self.gitlab_token@.dom().contains(domain) {
            Some(self.gitlab_token@[domain].text())
        } else if self.gitlab_oauth@.dom().contains(domain) {
            Some(self.gitlab_oauth@[domain]@)
        } else {
            None
        }
    }

    /// The token for GitLab on a domain: a private one first, else one for OAuth.
    pub fn get_gitlab_token(&self, domain: &str) -> (r: Option<&str>)
        ensures
            r.is_some() == self.gitlab_text(domain@).is_some(),
            r matches Some(t) ==> t@ == self.gitlab_text(domain@)->0,
    {
        if let Some(auth) = self.gitlab_token.get(domain) {
            return Some(auth.token());
        }
        self.get_gitlab_oauth(domain)
    }

    /// Sets the token for a domain: a bearer token.
    pub fn set_bearer(&mut self, domain: &str, token: &str)
        ensures
            exists|t: String|
                #[trigger] t@ == token@ && final(self).bearer@ == old(self).bearer@.insert(domain@, t),
            final(self).http_basic@ == old(self).http_basic@,
            final(self).github_oauth@ == old(self).github_oauth@,
            final(self).gitlab_oauth@ == old(self).gitlab_oauth@,
            final(self).gitlab_token@ == old(self).gitlab_token@,
            final(self).bitbucket_oauth@ == old(self).bitbucket_oauth@,
    {
        let t = token.to_owned();
        self.bearer.insert(domain.to_owned(), t);
        assert(t@ == token@);
    }

    /// Sets the token for a domain: a token for GitHub.
    pub fn set_github_oauth(&mut self, domain: &str, token: &str)
        ensures
            exists|t: String|
                #[trigger] t@ == token@ && final(self).github_oauth@ == old(self).github_oauth@.insert(domain@, t),
            final(self).http_basic@ == old(self).http_basic@,
            final(self).bearer@ == old(self).bearer@,
            final(self).gitlab_oauth@ == old(self).gitlab_oauth@,
            final(self).gitlab_token@ == old(self).gitlab_token@,
            final(self).bitbucket_oauth@ == old(self).bitbucket_oauth@,
    {
        let t = token.to_owned();
        self.github_oauth.insert(domain.to_owned(), t);
        assert(t@ == token@);
    }

    /// Sets the token for a domain: an OAuth token for GitLab.
    pub fn set_gitlab_oauth(&mut self, domain: &str, token: &str)
        ensures
            exists|t: String|
                #[trigger] t@ == token@ && final(self).gitlab_oauth@ == old(self).gitlab_oauth@.insert(domain@, t),
            final(self).http_basic@ == old(self).http_basic@,
            final(self).bearer@ == old(self).bearer@,
            final(self).github_oauth@ == old(self).github_oauth@,
            final(self).gitlab_token@ == old(self).gitlab_token@,
            final(self).bitbucket_oauth@ == old(self).bitbucket_oauth@,
    {
        let t = token.to_owned();
        self.gitlab_oauth.insert(domain.to_owned(), t);
        assert(t@ == token@);
    }

    /// Sets the user name and the password for a domain.
    pub fn set_http_basic(&mut self, domain: &str, username: &str, password: &str)
        ensures
            exists|c: HttpBasicCredentials|
                #[trigger] c.username@ == username@ && c.password@ == password@
                    && final(self).http_basic@ == old(self).http_basic@.insert(domain@, c),
            final(self).bearer@ == old(self).bearer@,
            final(self).github_oauth@ == old(self).github_oauth@,
            final(self).gitlab_oauth@ == old(self).gitlab_oauth@,
            final(self).gitlab_token@ == old(self).gitlab_token@,
            final(self).bitbucket_oauth@ == old(self).bitbucket_oauth@,
    {
        let c = HttpBasicCredentials {
            username: username.to_owned(),
            password: password.to_owned(),
        };
        self.http_basic.insert(domain.to_owned(), c);
        assert(c.username@ == username@);
    }

    /// Sets a private token for GitLab on a domain.
    pub fn set_gitlab_token(&mut self, domain: &str, token: &str)
        ensures
            exists|t: String|
                #[trigger] t@ == token@ && final(self).gitlab_token@
                    == old(self).gitlab_token@.insert(domain@, GitLabAuth::Token(t)),
            final(self).http_basic@ == old(self).http_basic@,
            final(self).bearer@ == old(self).bearer@,
            final(self).github_oauth@ == old(self).github_oauth@,
            final(self).gitlab_oauth@ == old(self).gitlab_oauth@,
            final(self).bitbucket_oauth@ == old(self).bitbucket_oauth@,
    {
        let t = token.to_owned();
        self.gitlab_token.insert(domain.to_owned(), GitLabAuth::Token(t));
        assert(t@ == token@);
    }

    /// Sets the key and the secret for Bitbucket on a domain.
    pub fn set_bitbucket_oauth(&mut self, domain: &str, consumer_key: &str, consumer_secret: &str)
        ensures
            exists|c: BitbucketOAuthCredentials|
                #[trigger] c.consumer_key@ == consumer_key@ && c.consumer_secret@
                    == consumer_secret@ && final(self).bitbucket_oauth@
                    == old(self).bitbucket_oauth@.insert(domain@, c),
            final(self).http_basic@ == old(self).http_basic@,
            final(self).bearer@ == old(self).bearer@,
            final(self).github_oauth@ == old(self).github_oauth@,
            final(self).gitlab_oauth@ == old(self).gitlab_oauth@,
            final(self).gitlab_token@ == old(self).gitlab_token@,
    {
        let c = BitbucketOAuthCredentials {
            consumer_key: consumer_key.to_owned(),
            consumer_secret: consumer_secret.to_owned(),
        };
        self.bitbucket_oauth.insert(domain.to_owned(), c);
        assert(c.consumer_key@ == consumer_key@);
    }

    /// Removes what is set under `http_basic` for a domain and hands it out.
    pub fn remove_http_basic(&mut self, domain: &str) -> (r: Option<HttpBasicCredentials>)
        ensures
            final(self).http_basic@ == old(self).http_basic@.remove(domain@),
            r.is_some() == old(self).http_basic@.dom().contains(domain@),
            r matches Some(v) ==> v == old(self).http_basic@[domain@],
            final(self).bearer@ == old(self).bearer@,
            final(self).github_oauth@ == old(self).github_oauth@,
            final(self).gitlab_oauth@ == old(self).gitlab_oauth@,
            final(self).gitlab_token@ == old(self).gitlab_token@,
            final(self).bitbucket_oauth@ == old(self).bitbucket_oauth@,
    {
        self.http_basic.remove(domain)
    }

    /// Removes what is set under `bearer` for a domain and hands it out.
    pub fn remove_bearer(&mut self, domain: &str) -> (r: Option<String>)
        ensures
            final(self).bearer@ == old(self).bearer@.remove(domain@),
            r.is_some() == old(self).bearer@.dom().contains(domain@),
            r matches Some(v) ==> v == old(self).bearer@[domain@],
            final(self).http_basic@ == old(self).http_basic@,
            final(self).github_oauth@ == old(self).github_oauth@,
            final(self).gitlab_oauth@ == old(self).gitlab_oauth@,
            final(self).gitlab_token@ == old(self).gitlab_token@,
            final(self).bitbucket_oauth@ == old(self).bitbucket_oauth@,
    {
        self.bearer.remove(domain)
    }

    /// Removes what is set under `github_oauth` for a domain and hands it out.
    pub fn remove_github_oauth(&mut self, domain: &str) -> (r: Option<String>)
        ensures
            final(self).github_oauth@ == old(self).github_oauth@.remove(domain@),
            r.is_some() == old(self).github_oauth@.dom().contains(domain@),
            r matches Some(v) ==> v == old(self).github_oauth@[domain@],
            final(self).http_basic@ == old(self).http_basic@,
            final(self).bearer@ == old(self).bearer@,
            final(self).gitlab_oauth@ == old(self).gitlab_oauth@,
            final(self).gitlab_token@ == old(self).gitlab_token@,
            final(self).bitbucket_oauth@ == old(self).bitbucket_oauth@,
    {
        self.github_oauth.remove(domain)
    }

    /// Removes what is set under `gitlab_oauth` for a domain and hands it out.
    pub fn remove_gitlab_oauth(&mut self, domain: &str) -> (r: Option<String>)
        ensures
            final(self).gitlab_oauth@ == old(self).gitlab_oauth@.remove(domain@),
            r.is_some() == old(self).gitlab_oauth@.dom().contains(domain@),
            r matches Some(v) ==> v == old(self).gitlab_oauth@[domain@],
            final(self).http_basic@ == old(self).http_basic@,
            final(self).bearer@ == old(self).bearer@,
            final(self).github_oauth@ == old(self).github_oauth@,
            final(self).gitlab_token@ == old(self).gitlab_token@,
            final(self).bitbucket_oauth@ == old(self).bitbucket_oauth@,
    {
        self.gitlab_oauth.remove(domain)
    }

    /// Removes what is set under `gitlab_token` for a domain and hands it out.
    pub fn remove_gitlab_token(&mut self, domain: &str) -> (r: Option<GitLabAuth>)
        ensures
            final(self).gitlab_token@ == old(self).gitlab_token@.remove(domain@),
            r.is_some() == old(self).gitlab_token@.dom().contains(domain@),
            r matches Some(v) ==> v == old(self).gitlab_token@[domain@],
            final(self).http_basic@ == old(self).http_basic@,
            final(self).bearer@ == old(self).bearer@,
            final(self).github_oauth@ == old(self).github_oauth@,
            final(self).gitlab_oauth@ == old(self).gitlab_oauth@,
            final(self).bitbucket_oauth@ == old(self).bitbucket_oauth@,
    {
        self.gitlab_token.remove(domain)
    }

    /// Removes what is set under `bitbucket_oauth` for a domain and hands it out.
    pub fn remove_bitbucket_oauth(&mut self, domain: &str) -> (r: Option<BitbucketOAuthCredentials>)
        ensures
            final(self).bitbucket_oauth@ == old(self).bitbucket_oauth@.remove(domain@),
            r.is_some() == old(self).bitbucket_oauth@.dom().contains(domain@),
            r matches Some(v) ==> v == old(self).bitbucket_oauth@[domain@],
            final(self).http_basic@ == old(self).http_basic@,
            final(self).bearer@ == old(self).bearer@,
            final(self).github_oauth@ == old(self).github_oauth@,
            final(self).gitlab_oauth@ == old(self).gitlab_oauth@,
            final(self).gitlab_token@ == old(self).gitlab_token@,
    {
        self.bitbucket_oauth.remove(domain)
    }

    /// Adds other credentials, which take precedence.
    pub fn merge(&mut self, other: AuthConfig)
        ensures
            final(self).http_basic@ == old(self).http_basic@.union_prefer_right(other.http_basic@),
            final(self).bearer@ == old(self).bearer@.union_prefer_right(other.bearer@),
            final(self).github_oauth@ == old(self).github_oauth@.union_prefer_right(other.github_oauth@),
            final(self).gitlab_oauth@ == old(self).gitlab_oauth@.union_prefer_right(other.gitlab_oauth@),
            final(self).gitlab_token@ == old(self).gitlab_token@.union_prefer_right(other.gitlab_token@),
            final(self).bitbucket_oauth@ == old(self).bitbucket_oauth@.union_prefer_right(other.bitbucket_oauth@),
    {
        self.http_basic.extend(other.http_basic);
        self.bearer.extend(other.bearer);
        self.github_oauth.extend(other.github_oauth);
        self.gitlab_oauth.extend(other.gitlab_oauth);
        self.gitlab_token.extend(other.gitlab_token);
        self.bitbucket_oauth.extend(other.bitbucket_oauth);
    }

    /// All credentials: those of the global file, over them those of the project, and
    /// over these those of the environment.
    pub fn build(
        global: Option<AuthConfig>,
        project: Option<AuthConfig>,
        environment: Option<AuthConfig>,
    ) -> (r: AuthConfig)
        ensures
            r.http_basic@ == layer(
                layer(
                    layer(Map::empty(), global, |a: AuthConfig| a.http_basic@),
                    project,
                    |a: AuthConfig| a.http_basic@,
                ),
                environment,
                |a: AuthConfig| a.http_basic@,
            ),
            r.bearer@ == layer(
                layer(
                    layer(Map::empty(), global, |a: AuthConfig| a.bearer@),
                    project,
                    |a: AuthConfig| a.bearer@,
                ),
                environment,
                |a: AuthConfig| a.bearer@,
            ),
            r.github_oauth@ == layer(
                layer(
                    layer(Map::empty(), global, |a: AuthConfig| a.github_oauth@),
                    project,
                    |a: AuthConfig| a.github_oauth@,
                ),
                environment,
                |a: AuthConfig| a.github_oauth@,
            ),
            r.gitlab_oauth@ == layer(
                layer(
                    layer(Map::empty(), global, |a: AuthConfig| a.gitlab_oauth@),
                    project,
                    |a: AuthConfig| a.gitlab_oauth@,
                ),
                environment,
                |a: AuthConfig| a.gitlab_oauth@,
            ),
            r.gitlab_token@ == layer(
                layer(
                    layer(Map::empty(), global, |a: AuthConfig| a.gitlab_token@),
                    project,
                    |a: AuthConfig| a.gitlab_token@,
                ),
                environment,
                |a: AuthConfig| a.gitlab_token@,
            ),
            r.bitbucket_oauth@ == layer(
                layer(
                    layer(Map::empty(), global, |a: AuthConfig| a.bitbucket_oauth@),
                    project,
                    |a: AuthConfig| a.bitbucket_oauth@,
                ),
                environment,
                |a: AuthConfig| a.bitbucket_oauth@,
            ),
    {
        let mut r = AuthConfig::new();
        if let Some(a) = global {
            r.merge(a);
        }
        if let Some(a) = project {
            r.merge(a);
        }
        if let Some(a) = environment {
            r.merge(a);
        }
        r
    }

    /// Where the global credentials are kept, below the home directory.
    pub fn global_path(home: &str) -> (r: String)
        ensures
            r@ == joined_path(home@, "auth.json"@),
    {
        join_path(home, "auth.json")
    }
}

/// The values of a layer over others, where there is one.
pub open spec fn layer<T>(
    below: Map<Seq<char>, T>,
    above: Option<AuthConfig>,
    part: spec_fn(AuthConfig) -> Map<Seq<char>, T>,
) -> Map<Seq<char>, T> {
    match above {
        Some(a) => below.union_prefer_right(part(a)),
        None => below,
    }
}

impl<T> DomainMap<T> {
    /// Adds other values, which take precedence.
    pub fn extend(&mut self, other: DomainMap<T>)
        ensures
            final(self)@ == old(self)@.union_prefer_right(other@),
    {
        let ghost start = self@;
        let ghost s = other.entries@;
        let mut rest = other.entries;
        proof {
            assert(by_domain(s.skip(s.len() as int)) =~= Map::empty());
            assert(start.union_prefer_right(Map::empty()) =~= start);
        }
        while rest.len() > 0
            invariant
                rest@ == s.take(rest@.len() as int),
                rest@.len() <= s.len(),
                self@ == start.union_prefer_right(by_domain(s.skip(rest@.len() as int))),
            decreases rest.len(),
        {
            let ghost n = rest@.len() as int;
            if let Some((domain, value)) = rest.pop() {
                proof {
                    assert(s[n - 1] == (domain, value));
                    let tail = s.skip(n);
                    let more = s.skip(n - 1);
                    assert(more.drop_first() =~= tail);
                    lemma_front(more);
                    assert(start.union_prefer_right(by_domain(tail)).insert(domain@, value)
                        =~= start.union_prefer_right(by_domain(tail).insert(domain@, value)));
                    assert(rest@ =~= s.take(n - 1));
                }
                self.insert(domain, value);
            }
        }
        proof {
            assert(s.skip(0) =~= s);
        }
    }
}

proof fn lemma_front<T>(s: Seq<(String, T)>)
    requires
        s.len() > 0,
    ensures
        by_domain(s) == by_domain(s.drop_first()).insert(s[0].0@, s[0].1),
{
    let rest = s.drop_first();
    let m = by_domain(s);
    let n = by_domain(rest).insert(s[0].0@, s[0].1);
    assert forall|d: Seq<char>| #[trigger] m.dom().contains(d) == n.dom().contains(d) by {
        lemma_domain_at(s, d);
        lemma_domain_at(rest, d);
    }
    assert(m.dom() =~= n.dom());
    assert forall|d: Seq<char>| #[trigger] m.dom().contains(d) implies m[d] == n[d] by {
        lemma_domain_at(s, d);
        lemma_domain_at(rest, d);
        if d != s[0].0@ {
            assert(domain_at(s, d) == 1 + domain_at(rest, d));
            assert(s[domain_at(s, d)] == rest[domain_at(rest, d)]);
        } else {
            assert(domain_at(s, d) == 0);
        }
    }
    assert(m =~= n);
}

// ---------------------------------------------------------------------------
// Which credentials a request is made with
// ---------------------------------------------------------------------------
/// The credentials that were found.
#[derive(Debug, Clone)]
pub enum AuthMatch<'a> {
    Missing,
    HttpBasic(&'a HttpBasicCredentials),
    Bearer(&'a str),
    GitHubOAuth(&'a str),
    GitLabToken(&'a str),
    BitbucketOAuth(&'a BitbucketOAuthCredentials),
}

/// The credentials that were found.
pub enum MatchView {
    Missing,
    HttpBasic(HttpBasicCredentials),
    Bearer(Seq<char>),
    GitHubOAuth(Seq<char>),
    GitLabToken(Seq<char>),
    BitbucketOAuth(BitbucketOAuthCredentials),
}

impl<'a> View for AuthMatch<'a> {
    type V = MatchView;

    open spec fn view(&self) -> MatchView {
        match *self {
            AuthMatch::Missing => MatchView::Missing,
            AuthMatch::HttpBasic(c) => MatchView::HttpBasic(*c),
            AuthMatch::Bearer(t) => MatchView::Bearer(t@),
            AuthMatch::GitHubOAuth(t) => MatchView::GitHubOAuth(t@),
            AuthMatch::GitLabToken(t) => MatchView::GitLabToken(t@),
            AuthMatch::BitbucketOAuth(c) => MatchView::BitbucketOAuth(*c),
        }
    }
}

impl<'a> AuthMatch<'a> {
    /// Whether credentials were found.
    pub fn is_some(&self) -> (r: bool)
        ensures
            r == !(self@ is Missing),
    {
        !matches!(self, AuthMatch::Missing)
    }

    /// Whether no credentials were found.
    pub fn is_none(&self) -> (r: bool)
        ensures
            r == (self@ is Missing),
    {
        matches!(self, AuthMatch::Missing)
    }
}

/// The host in an address, where the address is a URL with one.
pub uninterp spec fn host_of(url: Seq<char>) -> Option<Seq<char>>;

/// `url::Url::parse` and `Url::host_str`: the host, where the text is a URL and has one.
#[verifier::external_body]
pub(crate) fn url_host(url: &str) -> (r: Option<String>)
    ensures
        r.is_some() == host_of(url@).is_some(),
        r matches Some(h) ==> h@ == host_of(url@)->0,
{
    url::Url::parse(url).ok().and_then(|u| u.host_str().map(|h| h.to_string()))
}

/// The domain of a repository: the part before the colon in the short form of git,
/// else the host, else what stands behind the scheme.
pub open spec fn domain_of(url: Seq<char>, host: Option<Seq<char>>) -> Seq<char> {
    let short = match without_prefix(url, "git@"@) {
        Some(rest) => match halves(rest, ':') {
            Some((h, _)) => Some(lowercase(h)),
            None => None,
        },
        None => None,
    };
    match short {
        Some(d) => d,
        None => match host {
            Some(h) => lowercase(h),
            None => match sides(lowercase(url), "://"@) {
                Some((_, rest)) => match halves(rest, '/') {
                    Some((d, _)) => d,
                    None => rest,
                },
                None => lowercase(url),
            },
        },
    }
}

/// The domain of a repository, given the host in its address.
pub fn domain_with_host(url: &str, host: Option<String>) -> (r: String)
    ensures
        r@ == domain_of(
            url@,
            match host {
                Some(h) => Some(h@),
                None => None,
            },
        ),
{
    if let Some(rest) = strip_prefix(url, "git@") {
        if let Some((h, _)) = split_once(rest, ':') {
            return to_lowercase(h);
        }
    }
    if let Some(h) = host {
        return to_lowercase(h.as_str());
    }
    let lower = to_lowercase(url);
    if let Some((_, rest)) = split_text(lower.as_str(), "://") {
        return match split_once(rest, '/') {
            Some((d, _)) => d.to_owned(),
            None => rest.to_owned(),
        };
    }
    lower
}

/// The domain of a repository.
pub fn extract_domain(url: &str) -> (r: String)
    ensures
        r@ == domain_of(url@, host_of(url@)),
{
    domain_with_host(url, url_host(url))
}

/// The domain belongs to GitHub.
pub open spec fn github_domain(domain: Seq<char>) -> bool {
    domain == "github.com"@ || domain == "api.github.com"@ || has_suffix(domain, ".github.com"@)
}

/// The domain belongs to GitLab.
pub open spec fn gitlab_domain(domain: Seq<char>) -> bool {
    domain == "gitlab.com"@ || has_suffix(domain, ".gitlab.com"@)
}

/// The domain belongs to Bitbucket.
pub open spec fn bitbucket_domain(domain: Seq<char>) -> bool {
    domain == "bitbucket.org"@ || domain == "api.bitbucket.org"@ || has_suffix(
        domain,
        ".bitbucket.org"@,
    )
}

/// Whether the domain belongs to GitHub.
pub fn is_github_domain(domain: &str) -> (r: bool)
    ensures
        r == github_domain(domain@),
{
    str_equal(domain, "github.com") || str_equal(domain, "api.github.com") || ends_with(
        domain,
        ".github.com",
    )
}

/// Whether the domain belongs to GitLab.
pub fn is_gitlab_domain(domain: &str) -> (r: bool)
    ensures
        r == gitlab_domain(domain@),
{
    str_equal(domain, "gitlab.com") || ends_with(domain, ".gitlab.com")
}

/// Whether the domain belongs to Bitbucket.
pub fn is_bitbucket_domain(domain: &str) -> (r: bool)
    ensures
        r == bitbucket_domain(domain@),
{
    str_equal(domain, "bitbucket.org") || str_equal(domain, "api.bitbucket.org") || ends_with(
        domain,
        ".bitbucket.org",
    )
}

/// The first of two that is there.
pub open spec fn first_some<T>(a: Option<T>, b: Option<T>) -> Option<T> {
    match a {
        Some(x) => Some(x),
        None => b,
    }
}

/// The value for a domain.
pub open spec fn at<T>(m: Map<Seq<char>, T>, domain: Seq<char>) -> Option<T> {
    if m.dom().contains(domain) {
        Some(m[domain])
    } else {
        None
    }
}

impl AuthConfig {
    /// The credentials for a domain: those set for the domain itself first, then those
    /// of the service that it belongs to or is named after.
    pub open spec fn chosen(&self, domain: Seq<char>) -> MatchView {
        let github = first_some(
            at(self.github_oauth@, "github.com"@),
            at(self.github_oauth@, domain),
        );
        let gitlab = first_some(self.gitlab_text("gitlab.com"@), self.gitlab_text(domain));
        let bitbucket = first_some(
            at(self.bitbucket_oauth@, "bitbucket.org"@),
            at(self.bitbucket_oauth@, domain),
        );
        if let Some(c) = at(self.http_basic@, domain) {
            MatchView::HttpBasic(c)
        } else if let Some(t) = at(self.bearer@, domain) {
            MatchView::Bearer(t@)
        } else if (github_domain(domain) || has_infix(domain, "github"@)) && github is Some {
            MatchView::GitHubOAuth(github->0@)
        } else if (gitlab_domain(domain) || has_infix(domain, "gitlab"@)) && gitlab is Some {
            MatchView::GitLabToken(gitlab->0)
        } else if (bitbucket_domain(domain) || has_infix(domain, "bitbucket"@)) && bitbucket
            is Some {
            MatchView::BitbucketOAuth(bitbucket->0)
        } else {
            MatchView::Missing
        }
    }

    /// The credentials for a domain.
    pub fn find_for_domain(&self, domain: &str) -> (r: AuthMatch<'_>)
        ensures
            r@ == self.chosen(domain@),
    {
        if let Some(c) = self.get_http_basic(domain) {
            return AuthMatch::HttpBasic(c);
        }
        if let Some(t) = self.get_bearer(domain) {
            return AuthMatch::Bearer(t);
        }
        if is_github_domain(domain) || contains(domain, "github") {
            if let Some(t) = self.get_github_oauth("github.com") {
                return AuthMatch::GitHubOAuth(t);
            }
            if let Some(t) = self.get_github_oauth(domain) {
                return AuthMatch::GitHubOAuth(t);
            }
        }
        if is_gitlab_domain(domain) || contains(domain, "gitlab") {
            if let Some(t) = self.get_gitlab_token("gitlab.com") {
                return AuthMatch::GitLabToken(t);
            }
            if let Some(t) = self.get_gitlab_token(domain) {
                return AuthMatch::GitLabToken(t);
            }
        }
        if is_bitbucket_domain(domain) || contains(domain, "bitbucket") {
            if let Some(c) = self.get_bitbucket_oauth("bitbucket.org") {
                return AuthMatch::BitbucketOAuth(c);
            }
            if let Some(c) = self.get_bitbucket_oauth(domain) {
                return AuthMatch::BitbucketOAuth(c);
            }
        }
        AuthMatch::Missing
    }

    /// The credentials for an address.
    pub fn find_for_url(&self, url: &str) -> (r: AuthMatch<'_>)
        ensures
            r@ == self.chosen(domain_of(url@, host_of(url@))),
    {
        let domain = extract_domain(url);
        self.find_for_domain(domain.as_str())
    }
}

/// A user name and a password that are set for a domain come before everything else.
pub proof fn law_basic_credentials_come_first(a: AuthConfig, domain: Seq<char>)
    requires
        a.http_basic@.dom().contains(domain),
    ensures
        a.chosen(domain) == MatchView::HttpBasic(a.http_basic@[domain]),
{
}

/// The token for GitHub serves every domain of GitHub, and every other that is named
/// after it, unless something is set for the domain itself.
pub proof fn law_github_token_serves_its_domains(a: AuthConfig, domain: Seq<char>)
    requires
        github_domain(domain) || has_infix(domain, "github"@),
        a.github_oauth@.dom().contains("github.com"@),
        !a.http_basic@.dom().contains(domain),
        !a.bearer@.dom().contains(domain),
    ensures
        a.chosen(domain) == MatchView::GitHubOAuth(a.github_oauth@["github.com"@]@),
{
}

/// Where nothing is set, nothing is found.
pub proof fn law_nothing_set_is_nothing_found(a: AuthConfig, domain: Seq<char>)
    requires
        a.nothing(),
    ensures
        a.chosen(domain) is Missing,
{
}

/// Of credentials that several sources give for a domain, those of the environment
/// count, else those of the project, else those of the global file.
pub proof fn law_environment_then_project_then_global<T>(
    global: Option<AuthConfig>,
    project: Option<AuthConfig>,
    environment: Option<AuthConfig>,
    part: spec_fn(AuthConfig) -> Map<Seq<char>, T>,
    domain: Seq<char>,
)
    ensures
        ({
            let all = layer(layer(layer(Map::empty(), global, part), project, part), environment, part);
            at(all, domain) == first_some(
                match environment {
                    Some(a) => at(part(a), domain),
                    None => None,
                },
                first_some(
                    match project {
                        Some(a) => at(part(a), domain),
                        None => None,
                    },
                    match global {
                        Some(a) => at(part(a), domain),
                        None => None,
                    },
                ),
            )
        }),
{
}

} // verus!
