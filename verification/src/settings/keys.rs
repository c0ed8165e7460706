//! The keys that the `config` command knows, and what each stands for.
use vstd::prelude::*;
use vstd::string::*;

use crate::error::{refuse, Refusal};
use crate::text::{
    ends_with, halves, has_prefix, has_suffix, pieces, split, split_once, starts_with, str_equal,
    str_views, strip_prefix, without_prefix,
};

verus! {

/// The key stands for a text at the top of the manifest.
pub open spec fn root_string(key: Seq<char>) -> bool {
    ||| key == "name"@
    ||| key == "type"@
    ||| key == "description"@
    ||| key == "homepage"@
    ||| key == "version"@
}

/// Whether the key stands for a text at the top of the manifest.
pub fn is_root_string_property(key: &str) -> (r: bool)
    ensures
        r == root_string(key@),
{
    str_equal(key, "name")
        || str_equal(key, "type")
        || str_equal(key, "description")
        || str_equal(key, "homepage")
        || str_equal(key, "version")
}

/// The key stands for a list at the top of the manifest.
pub open spec fn root_list(key: Seq<char>) -> bool {
    ||| key == "keywords"@
    ||| key == "license"@
}

/// Whether the key stands for a list at the top of the manifest.
pub fn is_root_list_property(key: &str) -> (r: bool)
    ensures
        r == root_list(key@),
{
    str_equal(key, "keywords")
        || str_equal(key, "license")
}

/// The key stands for a truth value under `config`.
pub open spec fn bool_key(key: Seq<char>) -> bool {
    ||| key == "use-include-path"@
    ||| key == "use-github-api"@
    ||| key == "notify-on-install"@
    ||| key == "sort-packages"@
    ||| key == "optimize-autoloader"@
    ||| key == "classmap-authoritative"@
    ||| key == "apcu-autoloader"@
    ||| key == "prepend-autoloader"@
    ||| key == "update-with-minimal-changes"@
    ||| key == "disable-tls"@
    ||| key == "secure-http"@
    ||| key == "source-fallback"@
    ||| key == "github-expose-hostname"@
    ||| key == "htaccess-protect"@
    ||| key == "lock"@
    ||| key == "allow-plugins"@
    ||| key == "audit.ignore-unreachable"@
    ||| key == "audit.block-insecure"@
    ||| key == "audit.block-abandoned"@
    ||| key == "policy.advisories.block"@
    ||| key == "policy.malware.block"@
    ||| key == "policy.abandoned.block"@
    ||| key == "policy.ignore-unreachable"@
}

/// Whether the key stands for a truth value under `config`.
pub fn is_bool_config_key(key: &str) -> (r: bool)
    ensures
        r == bool_key(key@),
{
    str_equal(key, "use-include-path")
        || str_equal(key, "use-github-api")
        || str_equal(key, "notify-on-install")
        || str_equal(key, "sort-packages")
        || str_equal(key, "optimize-autoloader")
        || str_equal(key, "classmap-authoritative")
        || str_equal(key, "apcu-autoloader")
        || str_equal(key, "prepend-autoloader")
        || str_equal(key, "update-with-minimal-changes")
        || str_equal(key, "disable-tls")
        || str_equal(key, "secure-http")
        || str_equal(key, "source-fallback")
        || str_equal(key, "github-expose-hostname")
        || str_equal(key, "htaccess-protect")
        || str_equal(key, "lock")
        || str_equal(key, "allow-plugins")
        || str_equal(key, "audit.ignore-unreachable")
        || str_equal(key, "audit.block-insecure")
        || str_equal(key, "audit.block-abandoned")
        || str_equal(key, "policy.advisories.block")
        || str_equal(key, "policy.malware.block")
        || str_equal(key, "policy.abandoned.block")
        || str_equal(key, "policy.ignore-unreachable")
}

/// The key stands for a whole number under `config`.
pub open spec fn integer_key(key: Seq<char>) -> bool {
    ||| key == "process-timeout"@
    ||| key == "cache-ttl"@
    ||| key == "cache-files-ttl"@
}

/// Whether the key stands for a whole number under `config`.
pub fn is_integer_config_key(key: &str) -> (r: bool)
    ensures
        r == integer_key(key@),
{
    str_equal(key, "process-timeout")
        || str_equal(key, "cache-ttl")
        || str_equal(key, "cache-files-ttl")
}

/// The key stands for a text under `config`.
pub open spec fn string_key(key: Seq<char>) -> bool {
    ||| key == "vendor-dir"@
    ||| key == "bin-dir"@
    ||| key == "archive-dir"@
    ||| key == "archive-format"@
    ||| key == "data-dir"@
    ||| key == "cache-dir"@
    ||| key == "cache-files-dir"@
    ||| key == "cache-repo-dir"@
    ||| key == "cache-vcs-dir"@
    ||| key == "cache-files-maxsize"@
    ||| key == "autoloader-suffix"@
    ||| key == "cafile"@
    ||| key == "capath"@
}

/// Whether the key stands for a text under `config`.
pub fn is_string_config_key(key: &str) -> (r: bool)
    ensures
        r == string_key(key@),
{
    str_equal(key, "vendor-dir")
        || str_equal(key, "bin-dir")
        || str_equal(key, "archive-dir")
        || str_equal(key, "archive-format")
        || str_equal(key, "data-dir")
        || str_equal(key, "cache-dir")
        || str_equal(key, "cache-files-dir")
        || str_equal(key, "cache-repo-dir")
        || str_equal(key, "cache-vcs-dir")
        || str_equal(key, "cache-files-maxsize")
        || str_equal(key, "autoloader-suffix")
        || str_equal(key, "cafile")
        || str_equal(key, "capath")
}

/// The key stands for a list of texts under `config`.
pub open spec fn multi_key(key: Seq<char>) -> bool {
    ||| key == "github-protocols"@
    ||| key == "github-domains"@
    ||| key == "gitlab-domains"@
    ||| key == "audit.ignore-severity"@
    ||| key == "policy.advisories.ignore-severity"@
    ||| key == "policy.malware.ignore-source"@
}

/// Whether the key stands for a list of texts under `config`.
pub fn is_multi_config_key(key: &str) -> (r: bool)
    ensures
        r == multi_key(key@),
{
    str_equal(key, "github-protocols")
        || str_equal(key, "github-domains")
        || str_equal(key, "gitlab-domains")
        || str_equal(key, "audit.ignore-severity")
        || str_equal(key, "policy.advisories.ignore-severity")
        || str_equal(key, "policy.malware.ignore-source")
}

/// The key stands for a list or an object under `config` that can be merged into.
pub open spec fn json_merge_key(key: Seq<char>) -> bool {
    ||| key == "audit.ignore"@
    ||| key == "audit.ignore-abandoned"@
    ||| key == "policy.advisories.ignore"@
    ||| key == "policy.advisories.ignore-id"@
    ||| key == "policy.malware.ignore"@
    ||| key == "policy.abandoned.ignore"@
}

/// Whether the key stands for a list or an object under `config` that can be merged into.
pub fn is_json_merge_key(key: &str) -> (r: bool)
    ensures
        r == json_merge_key(key@),
{
    str_equal(key, "audit.ignore")
        || str_equal(key, "audit.ignore-abandoned")
        || str_equal(key, "policy.advisories.ignore")
        || str_equal(key, "policy.advisories.ignore-id")
        || str_equal(key, "policy.malware.ignore")
        || str_equal(key, "policy.abandoned.ignore")
}

/// The key stands for a kind of credentials.
pub open spec fn auth_kind(key: Seq<char>) -> bool {
    ||| key == "bitbucket-oauth"@
    ||| key == "github-oauth"@
    ||| key == "gitlab-oauth"@
    ||| key == "gitlab-token"@
    ||| key == "http-basic"@
    ||| key == "custom-headers"@
    ||| key == "bearer"@
    ||| key == "forgejo-token"@
}

/// Whether the key stands for a kind of credentials.
pub fn is_auth_kind(key: &str) -> (r: bool)
    ensures
        r == auth_kind(key@),
{
    str_equal(key, "bitbucket-oauth")
        || str_equal(key, "github-oauth")
        || str_equal(key, "gitlab-oauth")
        || str_equal(key, "gitlab-token")
        || str_equal(key, "http-basic")
        || str_equal(key, "custom-headers")
        || str_equal(key, "bearer")
        || str_equal(key, "forgejo-token")
}

/// The key stands for a value out of a fixed list, directly under `config`.
pub open spec fn plain_choice_key(key: Seq<char>) -> bool {
    ||| key == "preferred-install"@
    ||| key == "gitlab-protocol"@
    ||| key == "store-auths"@
    ||| key == "discard-changes"@
    ||| key == "bin-compat"@
    ||| key == "platform-check"@
    ||| key == "use-parent-dir"@
    ||| key == "bump-after-update"@
}

/// Whether the key stands for a value out of a fixed list, directly under `config`.
pub fn is_plain_choice_key(key: &str) -> (r: bool)
    ensures
        r == plain_choice_key(key@),
{
    str_equal(key, "preferred-install")
        || str_equal(key, "gitlab-protocol")
        || str_equal(key, "store-auths")
        || str_equal(key, "discard-changes")
        || str_equal(key, "bin-compat")
        || str_equal(key, "platform-check")
        || str_equal(key, "use-parent-dir")
        || str_equal(key, "bump-after-update")
}

/// The key stands for a value out of a fixed list, under `config.audit` or `config.policy`.
pub open spec fn audit_choice_key(key: Seq<char>) -> bool {
    ||| key == "audit.abandoned"@
    ||| key == "policy.advisories.audit"@
    ||| key == "policy.malware.block-scope"@
    ||| key == "policy.malware.audit"@
    ||| key == "policy.abandoned.audit"@
}

/// Whether the key stands for a value out of a fixed list, under `config.audit` or `config.policy`.
pub fn is_audit_choice_key(key: &str) -> (r: bool)
    ensures
        r == audit_choice_key(key@),
{
    str_equal(key, "audit.abandoned")
        || str_equal(key, "policy.advisories.audit")
        || str_equal(key, "policy.malware.block-scope")
        || str_equal(key, "policy.malware.audit")
        || str_equal(key, "policy.abandoned.audit")
}

/// The key stands for a directory.
pub open spec fn path_setting(key: Seq<char>) -> bool {
    ||| key == "vendor-dir"@
    ||| key == "bin-dir"@
    ||| key == "cache-dir"@
    ||| key == "data-dir"@
    ||| key == "cache-files-dir"@
    ||| key == "cache-repo-dir"@
    ||| key == "cache-vcs-dir"@
}

/// Whether the key stands for a directory.
pub fn is_path_setting(key: &str) -> (r: bool)
    ensures
        r == path_setting(key@),
{
    str_equal(key, "vendor-dir")
        || str_equal(key, "bin-dir")
        || str_equal(key, "cache-dir")
        || str_equal(key, "data-dir")
        || str_equal(key, "cache-files-dir")
        || str_equal(key, "cache-repo-dir")
        || str_equal(key, "cache-vcs-dir")
}

/// The key stands for a text that `null` clears.
pub open spec fn nullable_key(key: Seq<char>) -> bool {
    ||| key == "autoloader-suffix"@
    ||| key == "cafile"@
    ||| key == "capath"@
}

/// Whether the key stands for a text that `null` clears.
pub fn is_nullable_key(key: &str) -> (r: bool)
    ensures
        r == nullable_key(key@),
{
    str_equal(key, "autoloader-suffix")
        || str_equal(key, "cafile")
        || str_equal(key, "capath")
}

/// The key stands for a policy name kept for later use.
pub open spec fn reserved_policy(key: Seq<char>) -> bool {
    ||| key == "package"@
    ||| key == "packages"@
    ||| key == "license"@
    ||| key == "licence"@
    ||| key == "licenses"@
    ||| key == "licences"@
    ||| key == "support"@
    ||| key == "maintenance"@
    ||| key == "security"@
    ||| key == "minimum-release-age"@
}

/// Whether the key stands for a policy name kept for later use.
pub fn is_reserved_policy(key: &str) -> (r: bool)
    ensures
        r == reserved_policy(key@),
{
    str_equal(key, "package")
        || str_equal(key, "packages")
        || str_equal(key, "license")
        || str_equal(key, "licence")
        || str_equal(key, "licenses")
        || str_equal(key, "licences")
        || str_equal(key, "support")
        || str_equal(key, "maintenance")
        || str_equal(key, "security")
        || str_equal(key, "minimum-release-age")
}


/// The name behind one of the words for repositories: the empty name for the word
/// alone, and else what follows the dot.
pub open spec fn name_behind(key: Seq<char>, word: Seq<char>) -> Option<Seq<char>> {
    if key == word {
        Some(Seq::empty())
    } else {
        match without_prefix(key, word) {
            Some(rest) => without_prefix(rest, "."@),
            None => None,
        }
    }
}

/// The repository that a key names: `repositories`, `repository`, `repos` and
/// `repo` all introduce one.
pub open spec fn repository_of(key: Seq<char>) -> Option<Seq<char>> {
    if let Some(name) = name_behind(key, "repositories"@) {
        Some(name)
    } else if let Some(name) = name_behind(key, "repository"@) {
        Some(name)
    } else if let Some(name) = name_behind(key, "repos"@) {
        Some(name)
    } else {
        name_behind(key, "repo"@)
    }
}

fn repository_behind<'a>(key: &'a str, word: &str) -> (r: Option<&'a str>)
    ensures
        r.is_some() == name_behind(key@, word@).is_some(),
        r matches Some(n) ==> n@ == name_behind(key@, word@)->0,
{
    if str_equal(key, word) {
        let none = key.substring_char(0, 0);
        assert(none@ =~= Seq::empty());
        return Some(none);
    }
    match strip_prefix(key, word) {
        Some(rest) => strip_prefix(rest, "."),
        None => None,
    }
}

/// The repository that a key names: empty where the key stands for all of them.
pub fn repository_key<'a>(key: &'a str) -> (r: Option<&'a str>)
    ensures
        r.is_some() == repository_of(key@).is_some(),
        r matches Some(n) ==> n@ == repository_of(key@)->0,
{
    if let Some(name) = repository_behind(key, "repositories") {
        return Some(name);
    }
    if let Some(name) = repository_behind(key, "repository") {
        return Some(name);
    }
    if let Some(name) = repository_behind(key, "repos") {
        return Some(name);
    }
    repository_behind(key, "repo")
}

/// The kind of credentials and the host that a key names. The host keeps its dots.
pub open spec fn credentials_of(key: Seq<char>) -> Option<(Seq<char>, Seq<char>)> {
    match halves(key, '.') {
        Some((kind, host)) => if auth_kind(kind) {
            Some((kind, host))
        } else {
            None
        },
        None => None,
    }
}

/// The kind of credentials and the host that a key names.
pub fn auth_key<'a>(key: &'a str) -> (r: Option<(&'a str, &'a str)>)
    ensures
        r.is_some() == credentials_of(key@).is_some(),
        r matches Some(p) ==> (p.0@, p.1@) == credentials_of(key@)->0,
{
    match split_once(key, '.') {
        Some((kind, host)) => if is_auth_kind(kind) {
            Some((kind, host))
        } else {
            None
        },
        None => None,
    }
}

/// The key stands for a setting that is unset under `config`.
pub open spec fn config_key(key: Seq<char>) -> bool {
    bool_key(key) || integer_key(key) || string_key(key) || multi_key(key) || plain_choice_key(key)
}

/// Whether the key stands for a setting under `config`.
pub fn is_config_key(key: &str) -> (r: bool)
    ensures
        r == config_key(key@),
{
    is_bool_config_key(key) || is_integer_config_key(key) || is_string_config_key(key)
        || is_multi_config_key(key) || is_plain_choice_key(key)
}

/// The key stands for what a policy list ignores.
pub open spec fn policy_ignore_key(key: Seq<char>) -> bool {
    has_prefix(key, "policy."@) && has_suffix(key, ".ignore"@)
}

/// Whether the key stands for what a policy list ignores.
pub fn is_policy_ignore_key(key: &str) -> (r: bool)
    ensures
        r == policy_ignore_key(key@),
{
    starts_with(key, "policy.") && ends_with(key, ".ignore")
}

/// The key switches a whole policy list on or off.
pub open spec fn policy_list_toggle(key: Seq<char>) -> bool {
    let parts = pieces(key, '.');
    parts.len() == 2 && parts[0] == "policy"@ && parts[1] != "ignore-unreachable"@
}

/// Whether the key switches a whole policy list on or off.
pub fn is_policy_list_toggle(key: &str) -> (r: bool)
    ensures
        r == policy_list_toggle(key@),
{
    let parts = split(key, '.');
    assert(str_views(parts@).len() == parts@.len());
    parts.len() == 2 && str_equal(parts[0], "policy") && !str_equal(parts[1], "ignore-unreachable")
}

/// The name of the policy list in a key: what stands behind its first dot.
pub open spec fn policy_name(key: Seq<char>) -> Seq<char> {
    if pieces(key, '.').len() >= 2 {
        pieces(key, '.')[1]
    } else {
        Seq::empty()
    }
}

/// The name of the policy list in a key.
pub fn policy_list<'a>(key: &'a str) -> (r: &'a str)
    ensures
        r@ == policy_name(key@),
{
    let parts = split(key, '.');
    assert(str_views(parts@).len() == parts@.len());
    if parts.len() >= 2 {
        assert(str_views(parts@)[1] == parts@[1]@);
        parts[1]
    } else {
        let none = key.substring_char(0, 0);
        assert(none@ =~= Seq::empty());
        none
    }
}

/// Why the name of a policy list cannot be used, where it cannot.
pub open spec fn policy_name_fault(key: Seq<char>) -> Option<Seq<char>> {
    if has_prefix(policy_name(key), "ignore"@) {
        Some("Invalid dependency policy name: reserved prefix \"ignore\""@)
    } else if reserved_policy(policy_name(key)) {
        Some("Invalid dependency policy name: reserved for future use"@)
    } else {
        None
    }
}

/// Turns a key down whose policy list has a reserved name.
pub fn validate_policy_name(key: &str) -> (r: Result<(), Refusal>)
    ensures
        r.is_ok() == policy_name_fault(key@).is_none(),
        r matches Err(e) ==> Some(e@) == policy_name_fault(key@),
{
    let name = policy_list(key);
    if starts_with(name, "ignore") {
        return refuse("Invalid dependency policy name: reserved prefix \"ignore\"");
    }
    if is_reserved_policy(name) {
        return refuse("Invalid dependency policy name: reserved for future use");
    }
    Ok(())
}

} // verus!
