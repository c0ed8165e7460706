//! What holds of the choice of credentials: whose they are, and for which address they serve.
use vstd::prelude::*;

use crate::config::auth::{
    bitbucket_domain, domain_of, github_domain, gitlab_domain, AuthConfig, MatchView,
};
use crate::text::{
    after, before, find_from, has_infix, has_prefix, has_suffix, lemma_find_from, lowercase,
};

verus! {

/// A token set for a domain itself serves it, unless a user and a password are set for it.
pub proof fn law_own_token_serves_its_domain(a: AuthConfig, domain: Seq<char>)
    requires
        !a.http_basic@.dom().contains(domain),
        a.bearer@.dom().contains(domain),
    ensures
        a.chosen(domain) == MatchView::Bearer(a.bearer@[domain]@),
{
}

/// The token for GitLab serves every domain of GitLab and every other that is named after it: a
/// private token before one for OAuth, unless something is set for the domain itself.
pub proof fn law_gitlab_token_serves_its_domains(a: AuthConfig, domain: Seq<char>)
    requires
        gitlab_domain(domain) || has_infix(domain, "gitlab"@),
        !github_domain(domain),
        !has_infix(domain, "github"@),
        !a.http_basic@.dom().contains(domain),
        !a.bearer@.dom().contains(domain),
    ensures
        a.gitlab_token@.dom().contains("gitlab.com"@) ==> a.chosen(domain) == MatchView::GitLabToken(
            a.gitlab_token@["gitlab.com"@].text(),
        ),
        !a.gitlab_token@.dom().contains("gitlab.com"@) && a.gitlab_oauth@.dom().contains(
            "gitlab.com"@,
        ) ==> a.chosen(domain) == MatchView::GitLabToken(a.gitlab_oauth@["gitlab.com"@]@),
        !a.gitlab_token@.dom().contains("gitlab.com"@) && !a.gitlab_oauth@.dom().contains(
            "gitlab.com"@,
        ) && a.gitlab_token@.dom().contains(domain) ==> a.chosen(domain) == MatchView::GitLabToken(
            a.gitlab_token@[domain].text(),
        ),
{
}

/// The key for Bitbucket serves every domain of Bitbucket and every other that is named after it,
/// unless something is set for the domain itself.
pub proof fn law_bitbucket_key_serves_its_domains(a: AuthConfig, domain: Seq<char>)
    requires
        bitbucket_domain(domain) || has_infix(domain, "bitbucket"@),
        !github_domain(domain),
        !has_infix(domain, "github"@),
        !gitlab_domain(domain),
        !has_infix(domain, "gitlab"@),
        !a.http_basic@.dom().contains(domain),
        !a.bearer@.dom().contains(domain),
    ensures
        a.bitbucket_oauth@.dom().contains("bitbucket.org"@) ==> a.chosen(domain)
            == MatchView::BitbucketOAuth(a.bitbucket_oauth@["bitbucket.org"@]),
        !a.bitbucket_oauth@.dom().contains("bitbucket.org"@) && a.bitbucket_oauth@.dom().contains(
            domain,
        ) ==> a.chosen(domain) == MatchView::BitbucketOAuth(a.bitbucket_oauth@[domain]),
{
}

/// Credentials of a service never go to a domain that neither belongs to it nor is named after it.
pub proof fn law_tokens_stay_with_their_service(a: AuthConfig, domain: Seq<char>)
    ensures
        a.chosen(domain) is GitHubOAuth ==> has_infix(domain, "github"@) || domain == "github.com"@
            || domain == "api.github.com"@ || has_suffix(domain, ".github.com"@),
        a.chosen(domain) is GitLabToken ==> has_infix(domain, "gitlab"@) || domain == "gitlab.com"@
            || has_suffix(domain, ".gitlab.com"@),
        a.chosen(domain) is BitbucketOAuth ==> has_infix(domain, "bitbucket"@) || domain
            == "bitbucket.org"@ || domain == "api.bitbucket.org"@ || has_suffix(
            domain,
            ".bitbucket.org"@,
        ),
        a.chosen(domain) is HttpBasic ==> a.http_basic@.dom().contains(domain),
        a.chosen(domain) is Bearer ==> a.bearer@.dom().contains(domain),
{
}

/// The domain of an address is its host, and in the short form of git what stands before the colon,
/// in lower case.
pub proof fn law_domain_is_the_host(
    url: Seq<char>,
    host: Seq<char>,
    short: Seq<char>,
    path: Seq<char>,
)
    requires
        !short.contains(':'),
    ensures
        !has_prefix(url, "git@"@) ==> domain_of(url, Some(host)) == lowercase(host),
        domain_of("git@"@ + short + ":"@ + path, Some(host)) == lowercase(short),
        domain_of("git@"@ + short + ":"@ + path, None) == lowercase(short),
{
    reveal_strlit("git@");
    reveal_strlit(":");
    let s = "git@"@ + short + ":"@ + path;
    let rest = short + ":"@ + path;
    assert(s.subrange(0, 4) =~= "git@"@);
    assert(after(s, 4) =~= rest);
    lemma_find_from(rest, ':', 0);
    let n = short.len() as int;
    assert(rest[n] == ':');
    assert(forall|k: int| 0 <= k < n ==> #[trigger] rest[k] == short[k] && short.contains(short[k]));
    assert(find_from(rest, ':', 0) == n);
    assert(before(rest, n) =~= short);
}

} // verus!
