//! What holds of each setting of a file: it takes effect on what it is named for.
use vstd::prelude::*;

use crate::config::settings::{
    choice_effect, completed, list_effect, merged_value, overridden, path_effect,
    switch_effect, texts_among, with_new_texts, with_platform, with_tokens, ConfigView,
    DiscardChanges, EnvironmentOverrides, PlatformCheck, PluginsView, PreferredInstall, SourceView,
    StoreAuths,
};
use crate::holding::lemma_one_more;
use crate::installer::loading_laws::{constraint_on, lemma_with_link};
use crate::json::{lemma_with_entry, value_of, Entries, JsonView, NumberView};
use crate::links::{has_link, Pairs};
use crate::paths::joined_path;
use crate::text::{lowercase, replaced};

verus! {

proof fn lemma_is_vendor_dir()
    ensures
        "vendor-dir"@ != "bin-dir"@,
        "vendor-dir"@ != "cache-dir"@,
        "vendor-dir"@ != "data-dir"@,
        "vendor-dir"@ != "process-timeout"@,
        "vendor-dir"@ != "use-include-path"@,
        "vendor-dir"@ != "notify-on-install"@,
        "vendor-dir"@ != "optimize-autoloader"@,
        "vendor-dir"@ != "sort-packages"@,
        "vendor-dir"@ != "classmap-authoritative"@,
        "vendor-dir"@ != "apcu-autoloader"@,
        "vendor-dir"@ != "secure-http"@,
        "vendor-dir"@ != "disable-tls"@,
        "vendor-dir"@ != "lock"@,
        "vendor-dir"@ != "preferred-install"@,
        "vendor-dir"@ != "store-auths"@,
        "vendor-dir"@ != "discard-changes"@,
        "vendor-dir"@ != "platform-check"@,
        "vendor-dir"@ != "allow-plugins"@,
        "vendor-dir"@ != "github-protocols"@,
        "vendor-dir"@ != "github-domains"@,
        "vendor-dir"@ != "gitlab-domains"@,
        "vendor-dir"@ != "platform"@,
        "vendor-dir"@ != "github-oauth"@,
        "vendor-dir"@ != "gitlab-oauth"@,
{
    reveal_strlit("vendor-dir");
    assert("vendor-dir"@.len() == 10);
    reveal_strlit("bin-dir");
    assert("bin-dir"@.len() == 7);
    reveal_strlit("cache-dir");
    assert("cache-dir"@.len() == 9);
    reveal_strlit("data-dir");
    assert("data-dir"@.len() == 8);
    reveal_strlit("process-timeout");
    assert("process-timeout"@.len() == 15);
    reveal_strlit("use-include-path");
    assert("use-include-path"@.len() == 16);
    reveal_strlit("notify-on-install");
    assert("notify-on-install"@.len() == 17);
    reveal_strlit("optimize-autoloader");
    assert("optimize-autoloader"@.len() == 19);
    reveal_strlit("sort-packages");
    assert("sort-packages"@.len() == 13);
    reveal_strlit("classmap-authoritative");
    assert("classmap-authoritative"@.len() == 22);
    reveal_strlit("apcu-autoloader");
    assert("apcu-autoloader"@.len() == 15);
    reveal_strlit("secure-http");
    assert("secure-http"@.len() == 11);
    reveal_strlit("disable-tls");
    assert("disable-tls"@.len() == 11);
    reveal_strlit("lock");
    assert("lock"@.len() == 4);
    reveal_strlit("preferred-install");
    assert("preferred-install"@.len() == 17);
    reveal_strlit("store-auths");
    assert("store-auths"@.len() == 11);
    reveal_strlit("discard-changes");
    assert("discard-changes"@.len() == 15);
    reveal_strlit("platform-check");
    assert("platform-check"@.len() == 14);
    reveal_strlit("allow-plugins");
    assert("allow-plugins"@.len() == 13);
    reveal_strlit("github-protocols");
    assert("github-protocols"@.len() == 16);
    reveal_strlit("github-domains");
    assert("github-domains"@.len() == 14);
    reveal_strlit("gitlab-domains");
    assert("gitlab-domains"@.len() == 14);
    reveal_strlit("platform");
    assert("platform"@.len() == 8);
    reveal_strlit("github-oauth");
    assert("github-oauth"@.len() == 12);
    reveal_strlit("gitlab-oauth");
    assert("gitlab-oauth"@.len() == 12);
}

proof fn lemma_is_bin_dir()
    ensures
        "bin-dir"@ != "vendor-dir"@,
        "bin-dir"@ != "cache-dir"@,
        "bin-dir"@ != "data-dir"@,
        "bin-dir"@ != "process-timeout"@,
        "bin-dir"@ != "use-include-path"@,
        "bin-dir"@ != "notify-on-install"@,
        "bin-dir"@ != "optimize-autoloader"@,
        "bin-dir"@ != "sort-packages"@,
        "bin-dir"@ != "classmap-authoritative"@,
        "bin-dir"@ != "apcu-autoloader"@,
        "bin-dir"@ != "secure-http"@,
        "bin-dir"@ != "disable-tls"@,
        "bin-dir"@ != "lock"@,
        "bin-dir"@ != "preferred-install"@,
        "bin-dir"@ != "store-auths"@,
        "bin-dir"@ != "discard-changes"@,
        "bin-dir"@ != "platform-check"@,
        "bin-dir"@ != "allow-plugins"@,
        "bin-dir"@ != "github-protocols"@,
        "bin-dir"@ != "github-domains"@,
        "bin-dir"@ != "gitlab-domains"@,
        "bin-dir"@ != "platform"@,
        "bin-dir"@ != "github-oauth"@,
        "bin-dir"@ != "gitlab-oauth"@,
{
    reveal_strlit("bin-dir");
    assert("bin-dir"@.len() == 7);
    reveal_strlit("vendor-dir");
    assert("vendor-dir"@.len() == 10);
    reveal_strlit("cache-dir");
    assert("cache-dir"@.len() == 9);
    reveal_strlit("data-dir");
    assert("data-dir"@.len() == 8);
    reveal_strlit("process-timeout");
    assert("process-timeout"@.len() == 15);
    reveal_strlit("use-include-path");
    assert("use-include-path"@.len() == 16);
    reveal_strlit("notify-on-install");
    assert("notify-on-install"@.len() == 17);
    reveal_strlit("optimize-autoloader");
    assert("optimize-autoloader"@.len() == 19);
    reveal_strlit("sort-packages");
    assert("sort-packages"@.len() == 13);
    reveal_strlit("classmap-authoritative");
    assert("classmap-authoritative"@.len() == 22);
    reveal_strlit("apcu-autoloader");
    assert("apcu-autoloader"@.len() == 15);
    reveal_strlit("secure-http");
    assert("secure-http"@.len() == 11);
    reveal_strlit("disable-tls");
    assert("disable-tls"@.len() == 11);
    reveal_strlit("lock");
    assert("lock"@.len() == 4);
    reveal_strlit("preferred-install");
    assert("preferred-install"@.len() == 17);
    reveal_strlit("store-auths");
    assert("store-auths"@.len() == 11);
    reveal_strlit("discard-changes");
    assert("discard-changes"@.len() == 15);
    reveal_strlit("platform-check");
    assert("platform-check"@.len() == 14);
    reveal_strlit("allow-plugins");
    assert("allow-plugins"@.len() == 13);
    reveal_strlit("github-protocols");
    assert("github-protocols"@.len() == 16);
    reveal_strlit("github-domains");
    assert("github-domains"@.len() == 14);
    reveal_strlit("gitlab-domains");
    assert("gitlab-domains"@.len() == 14);
    reveal_strlit("platform");
    assert("platform"@.len() == 8);
    reveal_strlit("github-oauth");
    assert("github-oauth"@.len() == 12);
    reveal_strlit("gitlab-oauth");
    assert("gitlab-oauth"@.len() == 12);
}

proof fn lemma_is_cache_dir()
    ensures
        "cache-dir"@ != "vendor-dir"@,
        "cache-dir"@ != "bin-dir"@,
        "cache-dir"@ != "data-dir"@,
        "cache-dir"@ != "process-timeout"@,
        "cache-dir"@ != "use-include-path"@,
        "cache-dir"@ != "notify-on-install"@,
        "cache-dir"@ != "optimize-autoloader"@,
        "cache-dir"@ != "sort-packages"@,
        "cache-dir"@ != "classmap-authoritative"@,
        "cache-dir"@ != "apcu-autoloader"@,
        "cache-dir"@ != "secure-http"@,
        "cache-dir"@ != "disable-tls"@,
        "cache-dir"@ != "lock"@,
        "cache-dir"@ != "preferred-install"@,
        "cache-dir"@ != "store-auths"@,
        "cache-dir"@ != "discard-changes"@,
        "cache-dir"@ != "platform-check"@,
        "cache-dir"@ != "allow-plugins"@,
        "cache-dir"@ != "github-protocols"@,
        "cache-dir"@ != "github-domains"@,
        "cache-dir"@ != "gitlab-domains"@,
        "cache-dir"@ != "platform"@,
        "cache-dir"@ != "github-oauth"@,
        "cache-dir"@ != "gitlab-oauth"@,
{
    reveal_strlit("cache-dir");
    assert("cache-dir"@.len() == 9);
    reveal_strlit("vendor-dir");
    assert("vendor-dir"@.len() == 10);
    reveal_strlit("bin-dir");
    assert("bin-dir"@.len() == 7);
    reveal_strlit("data-dir");
    assert("data-dir"@.len() == 8);
    reveal_strlit("process-timeout");
    assert("process-timeout"@.len() == 15);
    reveal_strlit("use-include-path");
    assert("use-include-path"@.len() == 16);
    reveal_strlit("notify-on-install");
    assert("notify-on-install"@.len() == 17);
    reveal_strlit("optimize-autoloader");
    assert("optimize-autoloader"@.len() == 19);
    reveal_strlit("sort-packages");
    assert("sort-packages"@.len() == 13);
    reveal_strlit("classmap-authoritative");
    assert("classmap-authoritative"@.len() == 22);
    reveal_strlit("apcu-autoloader");
    assert("apcu-autoloader"@.len() == 15);
    reveal_strlit("secure-http");
    assert("secure-http"@.len() == 11);
    reveal_strlit("disable-tls");
    assert("disable-tls"@.len() == 11);
    reveal_strlit("lock");
    assert("lock"@.len() == 4);
    reveal_strlit("preferred-install");
    assert("preferred-install"@.len() == 17);
    reveal_strlit("store-auths");
    assert("store-auths"@.len() == 11);
    reveal_strlit("discard-changes");
    assert("discard-changes"@.len() == 15);
    reveal_strlit("platform-check");
    assert("platform-check"@.len() == 14);
    reveal_strlit("allow-plugins");
    assert("allow-plugins"@.len() == 13);
    reveal_strlit("github-protocols");
    assert("github-protocols"@.len() == 16);
    reveal_strlit("github-domains");
    assert("github-domains"@.len() == 14);
    reveal_strlit("gitlab-domains");
    assert("gitlab-domains"@.len() == 14);
    reveal_strlit("platform");
    assert("platform"@.len() == 8);
    reveal_strlit("github-oauth");
    assert("github-oauth"@.len() == 12);
    reveal_strlit("gitlab-oauth");
    assert("gitlab-oauth"@.len() == 12);
}

proof fn lemma_is_data_dir()
    ensures
        "data-dir"@ != "vendor-dir"@,
        "data-dir"@ != "bin-dir"@,
        "data-dir"@ != "cache-dir"@,
        "data-dir"@ != "process-timeout"@,
        "data-dir"@ != "use-include-path"@,
        "data-dir"@ != "notify-on-install"@,
        "data-dir"@ != "optimize-autoloader"@,
        "data-dir"@ != "sort-packages"@,
        "data-dir"@ != "classmap-authoritative"@,
        "data-dir"@ != "apcu-autoloader"@,
        "data-dir"@ != "secure-http"@,
        "data-dir"@ != "disable-tls"@,
        "data-dir"@ != "lock"@,
        "data-dir"@ != "preferred-install"@,
        "data-dir"@ != "store-auths"@,
        "data-dir"@ != "discard-changes"@,
        "data-dir"@ != "platform-check"@,
        "data-dir"@ != "allow-plugins"@,
        "data-dir"@ != "github-protocols"@,
        "data-dir"@ != "github-domains"@,
        "data-dir"@ != "gitlab-domains"@,
        "data-dir"@ != "platform"@,
        "data-dir"@ != "github-oauth"@,
        "data-dir"@ != "gitlab-oauth"@,
{
    reveal_strlit("data-dir");
    assert("data-dir"@.len() == 8);
    reveal_strlit("vendor-dir");
    assert("vendor-dir"@.len() == 10);
    reveal_strlit("bin-dir");
    assert("bin-dir"@.len() == 7);
    reveal_strlit("cache-dir");
    assert("cache-dir"@.len() == 9);
    reveal_strlit("process-timeout");
    assert("process-timeout"@.len() == 15);
    reveal_strlit("use-include-path");
    assert("use-include-path"@.len() == 16);
    reveal_strlit("notify-on-install");
    assert("notify-on-install"@.len() == 17);
    reveal_strlit("optimize-autoloader");
    assert("optimize-autoloader"@.len() == 19);
    reveal_strlit("sort-packages");
    assert("sort-packages"@.len() == 13);
    reveal_strlit("classmap-authoritative");
    assert("classmap-authoritative"@.len() == 22);
    reveal_strlit("apcu-autoloader");
    assert("apcu-autoloader"@.len() == 15);
    reveal_strlit("secure-http");
    assert("secure-http"@.len() == 11);
    reveal_strlit("disable-tls");
    assert("disable-tls"@.len() == 11);
    reveal_strlit("lock");
    assert("lock"@.len() == 4);
    reveal_strlit("preferred-install");
    assert("preferred-install"@.len() == 17);
    reveal_strlit("store-auths");
    assert("store-auths"@.len() == 11);
    reveal_strlit("discard-changes");
    assert("discard-changes"@.len() == 15);
    reveal_strlit("platform-check");
    assert("platform-check"@.len() == 14);
    reveal_strlit("allow-plugins");
    assert("allow-plugins"@.len() == 13);
    reveal_strlit("github-protocols");
    assert("github-protocols"@.len() == 16);
    reveal_strlit("github-domains");
    assert("github-domains"@.len() == 14);
    reveal_strlit("gitlab-domains");
    assert("gitlab-domains"@.len() == 14);
    reveal_strlit("platform");
    assert("data-dir"@[0] != "platform"@[0]);
    reveal_strlit("github-oauth");
    assert("github-oauth"@.len() == 12);
    reveal_strlit("gitlab-oauth");
    assert("gitlab-oauth"@.len() == 12);
}

proof fn lemma_is_process_timeout()
    ensures
        "process-timeout"@ != "vendor-dir"@,
        "process-timeout"@ != "bin-dir"@,
        "process-timeout"@ != "cache-dir"@,
        "process-timeout"@ != "data-dir"@,
        "process-timeout"@ != "use-include-path"@,
        "process-timeout"@ != "notify-on-install"@,
        "process-timeout"@ != "optimize-autoloader"@,
        "process-timeout"@ != "sort-packages"@,
        "process-timeout"@ != "classmap-authoritative"@,
        "process-timeout"@ != "apcu-autoloader"@,
        "process-timeout"@ != "secure-http"@,
        "process-timeout"@ != "disable-tls"@,
        "process-timeout"@ != "lock"@,
        "process-timeout"@ != "preferred-install"@,
        "process-timeout"@ != "store-auths"@,
        "process-timeout"@ != "discard-changes"@,
        "process-timeout"@ != "platform-check"@,
        "process-timeout"@ != "allow-plugins"@,
        "process-timeout"@ != "github-protocols"@,
        "process-timeout"@ != "github-domains"@,
        "process-timeout"@ != "gitlab-domains"@,
        "process-timeout"@ != "platform"@,
        "process-timeout"@ != "github-oauth"@,
        "process-timeout"@ != "gitlab-oauth"@,
{
    reveal_strlit("process-timeout");
    assert("process-timeout"@.len() == 15);
    reveal_strlit("vendor-dir");
    assert("vendor-dir"@.len() == 10);
    reveal_strlit("bin-dir");
    assert("bin-dir"@.len() == 7);
    reveal_strlit("cache-dir");
    assert("cache-dir"@.len() == 9);
    reveal_strlit("data-dir");
    assert("data-dir"@.len() == 8);
    reveal_strlit("use-include-path");
    assert("use-include-path"@.len() == 16);
    reveal_strlit("notify-on-install");
    assert("notify-on-install"@.len() == 17);
    reveal_strlit("optimize-autoloader");
    assert("optimize-autoloader"@.len() == 19);
    reveal_strlit("sort-packages");
    assert("sort-packages"@.len() == 13);
    reveal_strlit("classmap-authoritative");
    assert("classmap-authoritative"@.len() == 22);
    reveal_strlit("apcu-autoloader");
    assert("process-timeout"@[0] != "apcu-autoloader"@[0]);
    reveal_strlit("secure-http");
    assert("secure-http"@.len() == 11);
    reveal_strlit("disable-tls");
    assert("disable-tls"@.len() == 11);
    reveal_strlit("lock");
    assert("lock"@.len() == 4);
    reveal_strlit("preferred-install");
    assert("preferred-install"@.len() == 17);
    reveal_strlit("store-auths");
    assert("store-auths"@.len() == 11);
    reveal_strlit("discard-changes");
    assert("process-timeout"@[0] != "discard-changes"@[0]);
    reveal_strlit("platform-check");
    assert("platform-check"@.len() == 14);
    reveal_strlit("allow-plugins");
    assert("allow-plugins"@.len() == 13);
    reveal_strlit("github-protocols");
    assert("github-protocols"@.len() == 16);
    reveal_strlit("github-domains");
    assert("github-domains"@.len() == 14);
    reveal_strlit("gitlab-domains");
    assert("gitlab-domains"@.len() == 14);
    reveal_strlit("platform");
    assert("platform"@.len() == 8);
    reveal_strlit("github-oauth");
    assert("github-oauth"@.len() == 12);
    reveal_strlit("gitlab-oauth");
    assert("gitlab-oauth"@.len() == 12);
}

proof fn lemma_is_use_include_path()
    ensures
        "use-include-path"@ != "vendor-dir"@,
        "use-include-path"@ != "bin-dir"@,
        "use-include-path"@ != "cache-dir"@,
        "use-include-path"@ != "data-dir"@,
        "use-include-path"@ != "process-timeout"@,
        "use-include-path"@ != "notify-on-install"@,
        "use-include-path"@ != "optimize-autoloader"@,
        "use-include-path"@ != "sort-packages"@,
        "use-include-path"@ != "classmap-authoritative"@,
        "use-include-path"@ != "apcu-autoloader"@,
        "use-include-path"@ != "secure-http"@,
        "use-include-path"@ != "disable-tls"@,
        "use-include-path"@ != "lock"@,
        "use-include-path"@ != "preferred-install"@,
        "use-include-path"@ != "store-auths"@,
        "use-include-path"@ != "discard-changes"@,
        "use-include-path"@ != "platform-check"@,
        "use-include-path"@ != "allow-plugins"@,
        "use-include-path"@ != "github-protocols"@,
        "use-include-path"@ != "github-domains"@,
        "use-include-path"@ != "gitlab-domains"@,
        "use-include-path"@ != "platform"@,
        "use-include-path"@ != "github-oauth"@,
        "use-include-path"@ != "gitlab-oauth"@,
{
    reveal_strlit("use-include-path");
    assert("use-include-path"@.len() == 16);
    reveal_strlit("vendor-dir");
    assert("vendor-dir"@.len() == 10);
    reveal_strlit("bin-dir");
    assert("bin-dir"@.len() == 7);
    reveal_strlit("cache-dir");
    assert("cache-dir"@.len() == 9);
    reveal_strlit("data-dir");
    assert("data-dir"@.len() == 8);
    reveal_strlit("process-timeout");
    assert("process-timeout"@.len() == 15);
    reveal_strlit("notify-on-install");
    assert("notify-on-install"@.len() == 17);
    reveal_strlit("optimize-autoloader");
    assert("optimize-autoloader"@.len() == 19);
    reveal_strlit("sort-packages");
    assert("sort-packages"@.len() == 13);
    reveal_strlit("classmap-authoritative");
    assert("classmap-authoritative"@.len() == 22);
    reveal_strlit("apcu-autoloader");
    assert("apcu-autoloader"@.len() == 15);
    reveal_strlit("secure-http");
    assert("secure-http"@.len() == 11);
    reveal_strlit("disable-tls");
    assert("disable-tls"@.len() == 11);
    reveal_strlit("lock");
    assert("lock"@.len() == 4);
    reveal_strlit("preferred-install");
    assert("preferred-install"@.len() == 17);
    reveal_strlit("store-auths");
    assert("store-auths"@.len() == 11);
    reveal_strlit("discard-changes");
    assert("discard-changes"@.len() == 15);
    reveal_strlit("platform-check");
    assert("platform-check"@.len() == 14);
    reveal_strlit("allow-plugins");
    assert("allow-plugins"@.len() == 13);
    reveal_strlit("github-protocols");
    assert("use-include-path"@[0] != "github-protocols"@[0]);
    reveal_strlit("github-domains");
    assert("github-domains"@.len() == 14);
    reveal_strlit("gitlab-domains");
    assert("gitlab-domains"@.len() == 14);
    reveal_strlit("platform");
    assert("platform"@.len() == 8);
    reveal_strlit("github-oauth");
    assert("github-oauth"@.len() == 12);
    reveal_strlit("gitlab-oauth");
    assert("gitlab-oauth"@.len() == 12);
}

proof fn lemma_is_notify_on_install()
    ensures
        "notify-on-install"@ != "vendor-dir"@,
        "notify-on-install"@ != "bin-dir"@,
        "notify-on-install"@ != "cache-dir"@,
        "notify-on-install"@ != "data-dir"@,
        "notify-on-install"@ != "process-timeout"@,
        "notify-on-install"@ != "use-include-path"@,
        "notify-on-install"@ != "optimize-autoloader"@,
        "notify-on-install"@ != "sort-packages"@,
        "notify-on-install"@ != "classmap-authoritative"@,
        "notify-on-install"@ != "apcu-autoloader"@,
        "notify-on-install"@ != "secure-http"@,
        "notify-on-install"@ != "disable-tls"@,
        "notify-on-install"@ != "lock"@,
        "notify-on-install"@ != "preferred-install"@,
        "notify-on-install"@ != "store-auths"@,
        "notify-on-install"@ != "discard-changes"@,
        "notify-on-install"@ != "platform-check"@,
        "notify-on-install"@ != "allow-plugins"@,
        "notify-on-install"@ != "github-protocols"@,
        "notify-on-install"@ != "github-domains"@,
        "notify-on-install"@ != "gitlab-domains"@,
        "notify-on-install"@ != "platform"@,
        "notify-on-install"@ != "github-oauth"@,
        "notify-on-install"@ != "gitlab-oauth"@,
{
    reveal_strlit("notify-on-install");
    assert("notify-on-install"@.len() == 17);
    reveal_strlit("vendor-dir");
    assert("vendor-dir"@.len() == 10);
    reveal_strlit("bin-dir");
    assert("bin-dir"@.len() == 7);
    reveal_strlit("cache-dir");
    assert("cache-dir"@.len() == 9);
    reveal_strlit("data-dir");
    assert("data-dir"@.len() == 8);
    reveal_strlit("process-timeout");
    assert("process-timeout"@.len() == 15);
    reveal_strlit("use-include-path");
    assert("use-include-path"@.len() == 16);
    reveal_strlit("optimize-autoloader");
    assert("optimize-autoloader"@.len() == 19);
    reveal_strlit("sort-packages");
    assert("sort-packages"@.len() == 13);
    reveal_strlit("classmap-authoritative");
    assert("classmap-authoritative"@.len() == 22);
    reveal_strlit("apcu-autoloader");
    assert("apcu-autoloader"@.len() == 15);
    reveal_strlit("secure-http");
    assert("secure-http"@.len() == 11);
    reveal_strlit("disable-tls");
    assert("disable-tls"@.len() == 11);
    reveal_strlit("lock");
    assert("lock"@.len() == 4);
    reveal_strlit("preferred-install");
    assert("notify-on-install"@[0] != "preferred-install"@[0]);
    reveal_strlit("store-auths");
    assert("store-auths"@.len() == 11);
    reveal_strlit("discard-changes");
    assert("discard-changes"@.len() == 15);
    reveal_strlit("platform-check");
    assert("platform-check"@.len() == 14);
    reveal_strlit("allow-plugins");
    assert("allow-plugins"@.len() == 13);
    reveal_strlit("github-protocols");
    assert("github-protocols"@.len() == 16);
    reveal_strlit("github-domains");
    assert("github-domains"@.len() == 14);
    reveal_strlit("gitlab-domains");
    assert("gitlab-domains"@.len() == 14);
    reveal_strlit("platform");
    assert("platform"@.len() == 8);
    reveal_strlit("github-oauth");
    assert("github-oauth"@.len() == 12);
    reveal_strlit("gitlab-oauth");
    assert("gitlab-oauth"@.len() == 12);
}

proof fn lemma_is_optimize_autoloader()
    ensures
        "optimize-autoloader"@ != "vendor-dir"@,
        "optimize-autoloader"@ != "bin-dir"@,
        "optimize-autoloader"@ != "cache-dir"@,
        "optimize-autoloader"@ != "data-dir"@,
        "optimize-autoloader"@ != "process-timeout"@,
        "optimize-autoloader"@ != "use-include-path"@,
        "optimize-autoloader"@ != "notify-on-install"@,
        "optimize-autoloader"@ != "sort-packages"@,
        "optimize-autoloader"@ != "classmap-authoritative"@,
        "optimize-autoloader"@ != "apcu-autoloader"@,
        "optimize-autoloader"@ != "secure-http"@,
        "optimize-autoloader"@ != "disable-tls"@,
        "optimize-autoloader"@ != "lock"@,
        "optimize-autoloader"@ != "preferred-install"@,
        "optimize-autoloader"@ != "store-auths"@,
        "optimize-autoloader"@ != "discard-changes"@,
        "optimize-autoloader"@ != "platform-check"@,
        "optimize-autoloader"@ != "allow-plugins"@,
        "optimize-autoloader"@ != "github-protocols"@,
        "optimize-autoloader"@ != "github-domains"@,
        "optimize-autoloader"@ != "gitlab-domains"@,
        "optimize-autoloader"@ != "platform"@,
        "optimize-autoloader"@ != "github-oauth"@,
        "optimize-autoloader"@ != "gitlab-oauth"@,
{
    reveal_strlit("optimize-autoloader");
    assert("optimize-autoloader"@.len() == 19);
    reveal_strlit("vendor-dir");
    assert("vendor-dir"@.len() == 10);
    reveal_strlit("bin-dir");
    assert("bin-dir"@.len() == 7);
    reveal_strlit("cache-dir");
    assert("cache-dir"@.len() == 9);
    reveal_strlit("data-dir");
    assert("data-dir"@.len() == 8);
    reveal_strlit("process-timeout");
    assert("process-timeout"@.len() == 15);
    reveal_strlit("use-include-path");
    assert("use-include-path"@.len() == 16);
    reveal_strlit("notify-on-install");
    assert("notify-on-install"@.len() == 17);
    reveal_strlit("sort-packages");
    assert("sort-packages"@.len() == 13);
    reveal_strlit("classmap-authoritative");
    assert("classmap-authoritative"@.len() == 22);
    reveal_strlit("apcu-autoloader");
    assert("apcu-autoloader"@.len() == 15);
    reveal_strlit("secure-http");
    assert("secure-http"@.len() == 11);
    reveal_strlit("disable-tls");
    assert("disable-tls"@.len() == 11);
    reveal_strlit("lock");
    assert("lock"@.len() == 4);
    reveal_strlit("preferred-install");
    assert("preferred-install"@.len() == 17);
    reveal_strlit("store-auths");
    assert("store-auths"@.len() == 11);
    reveal_strlit("discard-changes");
    assert("discard-changes"@.len() == 15);
    reveal_strlit("platform-check");
    assert("platform-check"@.len() == 14);
    reveal_strlit("allow-plugins");
    assert("allow-plugins"@.len() == 13);
    reveal_strlit("github-protocols");
    assert("github-protocols"@.len() == 16);
    reveal_strlit("github-domains");
    assert("github-domains"@.len() == 14);
    reveal_strlit("gitlab-domains");
    assert("gitlab-domains"@.len() == 14);
    reveal_strlit("platform");
    assert("platform"@.len() == 8);
    reveal_strlit("github-oauth");
    assert("github-oauth"@.len() == 12);
    reveal_strlit("gitlab-oauth");
    assert("gitlab-oauth"@.len() == 12);
}

proof fn lemma_is_sort_packages()
    ensures
        "sort-packages"@ != "vendor-dir"@,
        "sort-packages"@ != "bin-dir"@,
        "sort-packages"@ != "cache-dir"@,
        "sort-packages"@ != "data-dir"@,
        "sort-packages"@ != "process-timeout"@,
        "sort-packages"@ != "use-include-path"@,
        "sort-packages"@ != "notify-on-install"@,
        "sort-packages"@ != "optimize-autoloader"@,
        "sort-packages"@ != "classmap-authoritative"@,
        "sort-packages"@ != "apcu-autoloader"@,
        "sort-packages"@ != "secure-http"@,
        "sort-packages"@ != "disable-tls"@,
        "sort-packages"@ != "lock"@,
        "sort-packages"@ != "preferred-install"@,
        "sort-packages"@ != "store-auths"@,
        "sort-packages"@ != "discard-changes"@,
        "sort-packages"@ != "platform-check"@,
        "sort-packages"@ != "allow-plugins"@,
        "sort-packages"@ != "github-protocols"@,
        "sort-packages"@ != "github-domains"@,
        "sort-packages"@ != "gitlab-domains"@,
        "sort-packages"@ != "platform"@,
        "sort-packages"@ != "github-oauth"@,
        "sort-packages"@ != "gitlab-oauth"@,
{
    reveal_strlit("sort-packages");
    assert("sort-packages"@.len() == 13);
    reveal_strlit("vendor-dir");
    assert("vendor-dir"@.len() == 10);
    reveal_strlit("bin-dir");
    assert("bin-dir"@.len() == 7);
    reveal_strlit("cache-dir");
    assert("cache-dir"@.len() == 9);
    reveal_strlit("data-dir");
    assert("data-dir"@.len() == 8);
    reveal_strlit("process-timeout");
    assert("process-timeout"@.len() == 15);
    reveal_strlit("use-include-path");
    assert("use-include-path"@.len() == 16);
    reveal_strlit("notify-on-install");
    assert("notify-on-install"@.len() == 17);
    reveal_strlit("optimize-autoloader");
    assert("optimize-autoloader"@.len() == 19);
    reveal_strlit("classmap-authoritative");
    assert("classmap-authoritative"@.len() == 22);
    reveal_strlit("apcu-autoloader");
    assert("apcu-autoloader"@.len() == 15);
    reveal_strlit("secure-http");
    assert("secure-http"@.len() == 11);
    reveal_strlit("disable-tls");
    assert("disable-tls"@.len() == 11);
    reveal_strlit("lock");
    assert("lock"@.len() == 4);
    reveal_strlit("preferred-install");
    assert("preferred-install"@.len() == 17);
    reveal_strlit("store-auths");
    assert("store-auths"@.len() == 11);
    reveal_strlit("discard-changes");
    assert("discard-changes"@.len() == 15);
    reveal_strlit("platform-check");
    assert("platform-check"@.len() == 14);
    reveal_strlit("allow-plugins");
    assert("sort-packages"@[0] != "allow-plugins"@[0]);
    reveal_strlit("github-protocols");
    assert("github-protocols"@.len() == 16);
    reveal_strlit("github-domains");
    assert("github-domains"@.len() == 14);
    reveal_strlit("gitlab-domains");
    assert("gitlab-domains"@.len() == 14);
    reveal_strlit("platform");
    assert("platform"@.len() == 8);
    reveal_strlit("github-oauth");
    assert("github-oauth"@.len() == 12);
    reveal_strlit("gitlab-oauth");
    assert("gitlab-oauth"@.len() == 12);
}

proof fn lemma_is_classmap_authoritative()
    ensures
        "classmap-authoritative"@ != "vendor-dir"@,
        "classmap-authoritative"@ != "bin-dir"@,
        "classmap-authoritative"@ != "cache-dir"@,
        "classmap-authoritative"@ != "data-dir"@,
        "classmap-authoritative"@ != "process-timeout"@,
        "classmap-authoritative"@ != "use-include-path"@,
        "classmap-authoritative"@ != "notify-on-install"@,
        "classmap-authoritative"@ != "optimize-autoloader"@,
        "classmap-authoritative"@ != "sort-packages"@,
        "classmap-authoritative"@ != "apcu-autoloader"@,
        "classmap-authoritative"@ != "secure-http"@,
        "classmap-authoritative"@ != "disable-tls"@,
        "classmap-authoritative"@ != "lock"@,
        "classmap-authoritative"@ != "preferred-install"@,
        "classmap-authoritative"@ != "store-auths"@,
        "classmap-authoritative"@ != "discard-changes"@,
        "classmap-authoritative"@ != "platform-check"@,
        "classmap-authoritative"@ != "allow-plugins"@,
        "classmap-authoritative"@ != "github-protocols"@,
        "classmap-authoritative"@ != "github-domains"@,
        "classmap-authoritative"@ != "gitlab-domains"@,
        "classmap-authoritative"@ != "platform"@,
        "classmap-authoritative"@ != "github-oauth"@,
        "classmap-authoritative"@ != "gitlab-oauth"@,
{
    reveal_strlit("classmap-authoritative");
    assert("classmap-authoritative"@.len() == 22);
    reveal_strlit("vendor-dir");
    assert("vendor-dir"@.len() == 10);
    reveal_strlit("bin-dir");
    assert("bin-dir"@.len() == 7);
    reveal_strlit("cache-dir");
    assert("cache-dir"@.len() == 9);
    reveal_strlit("data-dir");
    assert("data-dir"@.len() == 8);
    reveal_strlit("process-timeout");
    assert("process-timeout"@.len() == 15);
    reveal_strlit("use-include-path");
    assert("use-include-path"@.len() == 16);
    reveal_strlit("notify-on-install");
    assert("notify-on-install"@.len() == 17);
    reveal_strlit("optimize-autoloader");
    assert("optimize-autoloader"@.len() == 19);
    reveal_strlit("sort-packages");
    assert("sort-packages"@.len() == 13);
    reveal_strlit("apcu-autoloader");
    assert("apcu-autoloader"@.len() == 15);
    reveal_strlit("secure-http");
    assert("secure-http"@.len() == 11);
    reveal_strlit("disable-tls");
    assert("disable-tls"@.len() == 11);
    reveal_strlit("lock");
    assert("lock"@.len() == 4);
    reveal_strlit("preferred-install");
    assert("preferred-install"@.len() == 17);
    reveal_strlit("store-auths");
    assert("store-auths"@.len() == 11);
    reveal_strlit("discard-changes");
    assert("discard-changes"@.len() == 15);
    reveal_strlit("platform-check");
    assert("platform-check"@.len() == 14);
    reveal_strlit("allow-plugins");
    assert("allow-plugins"@.len() == 13);
    reveal_strlit("github-protocols");
    assert("github-protocols"@.len() == 16);
    reveal_strlit("github-domains");
    assert("github-domains"@.len() == 14);
    reveal_strlit("gitlab-domains");
    assert("gitlab-domains"@.len() == 14);
    reveal_strlit("platform");
    assert("platform"@.len() == 8);
    reveal_strlit("github-oauth");
    assert("github-oauth"@.len() == 12);
    reveal_strlit("gitlab-oauth");
    assert("gitlab-oauth"@.len() == 12);
}

proof fn lemma_is_apcu_autoloader()
    ensures
        "apcu-autoloader"@ != "vendor-dir"@,
        "apcu-autoloader"@ != "bin-dir"@,
        "apcu-autoloader"@ != "cache-dir"@,
        "apcu-autoloader"@ != "data-dir"@,
        "apcu-autoloader"@ != "process-timeout"@,
        "apcu-autoloader"@ != "use-include-path"@,
        "apcu-autoloader"@ != "notify-on-install"@,
        "apcu-autoloader"@ != "optimize-autoloader"@,
        "apcu-autoloader"@ != "sort-packages"@,
        "apcu-autoloader"@ != "classmap-authoritative"@,
        "apcu-autoloader"@ != "secure-http"@,
        "apcu-autoloader"@ != "disable-tls"@,
        "apcu-autoloader"@ != "lock"@,
        "apcu-autoloader"@ != "preferred-install"@,
        "apcu-autoloader"@ != "store-auths"@,
        "apcu-autoloader"@ != "discard-changes"@,
        "apcu-autoloader"@ != "platform-check"@,
        "apcu-autoloader"@ != "allow-plugins"@,
        "apcu-autoloader"@ != "github-protocols"@,
        "apcu-autoloader"@ != "github-domains"@,
        "apcu-autoloader"@ != "gitlab-domains"@,
        "apcu-autoloader"@ != "platform"@,
        "apcu-autoloader"@ != "github-oauth"@,
        "apcu-autoloader"@ != "gitlab-oauth"@,
{
    reveal_strlit("apcu-autoloader");
    assert("apcu-autoloader"@.len() == 15);
    reveal_strlit("vendor-dir");
    assert("vendor-dir"@.len() == 10);
    reveal_strlit("bin-dir");
    assert("bin-dir"@.len() == 7);
    reveal_strlit("cache-dir");
    assert("cache-dir"@.len() == 9);
    reveal_strlit("data-dir");
    assert("data-dir"@.len() == 8);
    reveal_strlit("process-timeout");
    assert("apcu-autoloader"@[0] != "process-timeout"@[0]);
    reveal_strlit("use-include-path");
    assert("use-include-path"@.len() == 16);
    reveal_strlit("notify-on-install");
    assert("notify-on-install"@.len() == 17);
    reveal_strlit("optimize-autoloader");
    assert("optimize-autoloader"@.len() == 19);
    reveal_strlit("sort-packages");
    assert("sort-packages"@.len() == 13);
    reveal_strlit("classmap-authoritative");
    assert("classmap-authoritative"@.len() == 22);
    reveal_strlit("secure-http");
    assert("secure-http"@.len() == 11);
    reveal_strlit("disable-tls");
    assert("disable-tls"@.len() == 11);
    reveal_strlit("lock");
    assert("lock"@.len() == 4);
    reveal_strlit("preferred-install");
    assert("preferred-install"@.len() == 17);
    reveal_strlit("store-auths");
    assert("store-auths"@.len() == 11);
    reveal_strlit("discard-changes");
    assert("apcu-autoloader"@[0] != "discard-changes"@[0]);
    reveal_strlit("platform-check");
    assert("platform-check"@.len() == 14);
    reveal_strlit("allow-plugins");
    assert("allow-plugins"@.len() == 13);
    reveal_strlit("github-protocols");
    assert("github-protocols"@.len() == 16);
    reveal_strlit("github-domains");
    assert("github-domains"@.len() == 14);
    reveal_strlit("gitlab-domains");
    assert("gitlab-domains"@.len() == 14);
    reveal_strlit("platform");
    assert("platform"@.len() == 8);
    reveal_strlit("github-oauth");
    assert("github-oauth"@.len() == 12);
    reveal_strlit("gitlab-oauth");
    assert("gitlab-oauth"@.len() == 12);
}

proof fn lemma_is_secure_http()
    ensures
        "secure-http"@ != "vendor-dir"@,
        "secure-http"@ != "bin-dir"@,
        "secure-http"@ != "cache-dir"@,
        "secure-http"@ != "data-dir"@,
        "secure-http"@ != "process-timeout"@,
        "secure-http"@ != "use-include-path"@,
        "secure-http"@ != "notify-on-install"@,
        "secure-http"@ != "optimize-autoloader"@,
        "secure-http"@ != "sort-packages"@,
        "secure-http"@ != "classmap-authoritative"@,
        "secure-http"@ != "apcu-autoloader"@,
        "secure-http"@ != "disable-tls"@,
        "secure-http"@ != "lock"@,
        "secure-http"@ != "preferred-install"@,
        "secure-http"@ != "store-auths"@,
        "secure-http"@ != "discard-changes"@,
        "secure-http"@ != "platform-check"@,
        "secure-http"@ != "allow-plugins"@,
        "secure-http"@ != "github-protocols"@,
        "secure-http"@ != "github-domains"@,
        "secure-http"@ != "gitlab-domains"@,
        "secure-http"@ != "platform"@,
        "secure-http"@ != "github-oauth"@,
        "secure-http"@ != "gitlab-oauth"@,
{
    reveal_strlit("secure-http");
    assert("secure-http"@.len() == 11);
    reveal_strlit("vendor-dir");
    assert("vendor-dir"@.len() == 10);
    reveal_strlit("bin-dir");
    assert("bin-dir"@.len() == 7);
    reveal_strlit("cache-dir");
    assert("cache-dir"@.len() == 9);
    reveal_strlit("data-dir");
    assert("data-dir"@.len() == 8);
    reveal_strlit("process-timeout");
    assert("process-timeout"@.len() == 15);
    reveal_strlit("use-include-path");
    assert("use-include-path"@.len() == 16);
    reveal_strlit("notify-on-install");
    assert("notify-on-install"@.len() == 17);
    reveal_strlit("optimize-autoloader");
    assert("optimize-autoloader"@.len() == 19);
    reveal_strlit("sort-packages");
    assert("sort-packages"@.len() == 13);
    reveal_strlit("classmap-authoritative");
    assert("classmap-authoritative"@.len() == 22);
    reveal_strlit("apcu-autoloader");
    assert("apcu-autoloader"@.len() == 15);
    reveal_strlit("disable-tls");
    assert("secure-http"@[0] != "disable-tls"@[0]);
    reveal_strlit("lock");
    assert("lock"@.len() == 4);
    reveal_strlit("preferred-install");
    assert("preferred-install"@.len() == 17);
    reveal_strlit("store-auths");
    assert("secure-http"@[1] != "store-auths"@[1]);
    reveal_strlit("discard-changes");
    assert("discard-changes"@.len() == 15);
    reveal_strlit("platform-check");
    assert("platform-check"@.len() == 14);
    reveal_strlit("allow-plugins");
    assert("allow-plugins"@.len() == 13);
    reveal_strlit("github-protocols");
    assert("github-protocols"@.len() == 16);
    reveal_strlit("github-domains");
    assert("github-domains"@.len() == 14);
    reveal_strlit("gitlab-domains");
    assert("gitlab-domains"@.len() == 14);
    reveal_strlit("platform");
    assert("platform"@.len() == 8);
    reveal_strlit("github-oauth");
    assert("github-oauth"@.len() == 12);
    reveal_strlit("gitlab-oauth");
    assert("gitlab-oauth"@.len() == 12);
}

proof fn lemma_is_disable_tls()
    ensures
        "disable-tls"@ != "vendor-dir"@,
        "disable-tls"@ != "bin-dir"@,
        "disable-tls"@ != "cache-dir"@,
        "disable-tls"@ != "data-dir"@,
        "disable-tls"@ != "process-timeout"@,
        "disable-tls"@ != "use-include-path"@,
        "disable-tls"@ != "notify-on-install"@,
        "disable-tls"@ != "optimize-autoloader"@,
        "disable-tls"@ != "sort-packages"@,
        "disable-tls"@ != "classmap-authoritative"@,
        "disable-tls"@ != "apcu-autoloader"@,
        "disable-tls"@ != "secure-http"@,
        "disable-tls"@ != "lock"@,
        "disable-tls"@ != "preferred-install"@,
        "disable-tls"@ != "store-auths"@,
        "disable-tls"@ != "discard-changes"@,
        "disable-tls"@ != "platform-check"@,
        "disable-tls"@ != "allow-plugins"@,
        "disable-tls"@ != "github-protocols"@,
        "disable-tls"@ != "github-domains"@,
        "disable-tls"@ != "gitlab-domains"@,
        "disable-tls"@ != "platform"@,
        "disable-tls"@ != "github-oauth"@,
        "disable-tls"@ != "gitlab-oauth"@,
{
    reveal_strlit("disable-tls");
    assert("disable-tls"@.len() == 11);
    reveal_strlit("vendor-dir");
    assert("vendor-dir"@.len() == 10);
    reveal_strlit("bin-dir");
    assert("bin-dir"@.len() == 7);
    reveal_strlit("cache-dir");
    assert("cache-dir"@.len() == 9);
    reveal_strlit("data-dir");
    assert("data-dir"@.len() == 8);
    reveal_strlit("process-timeout");
    assert("process-timeout"@.len() == 15);
    reveal_strlit("use-include-path");
    assert("use-include-path"@.len() == 16);
    reveal_strlit("notify-on-install");
    assert("notify-on-install"@.len() == 17);
    reveal_strlit("optimize-autoloader");
    assert("optimize-autoloader"@.len() == 19);
    reveal_strlit("sort-packages");
    assert("sort-packages"@.len() == 13);
    reveal_strlit("classmap-authoritative");
    assert("classmap-authoritative"@.len() == 22);
    reveal_strlit("apcu-autoloader");
    assert("apcu-autoloader"@.len() == 15);
    reveal_strlit("secure-http");
    assert("disable-tls"@[0] != "secure-http"@[0]);
    reveal_strlit("lock");
    assert("lock"@.len() == 4);
    reveal_strlit("preferred-install");
    assert("preferred-install"@.len() == 17);
    reveal_strlit("store-auths");
    assert("disable-tls"@[0] != "store-auths"@[0]);
    reveal_strlit("discard-changes");
    assert("discard-changes"@.len() == 15);
    reveal_strlit("platform-check");
    assert("platform-check"@.len() == 14);
    reveal_strlit("allow-plugins");
    assert("allow-plugins"@.len() == 13);
    reveal_strlit("github-protocols");
    assert("github-protocols"@.len() == 16);
    reveal_strlit("github-domains");
    assert("github-domains"@.len() == 14);
    reveal_strlit("gitlab-domains");
    assert("gitlab-domains"@.len() == 14);
    reveal_strlit("platform");
    assert("platform"@.len() == 8);
    reveal_strlit("github-oauth");
    assert("github-oauth"@.len() == 12);
    reveal_strlit("gitlab-oauth");
    assert("gitlab-oauth"@.len() == 12);
}

proof fn lemma_is_lock()
    ensures
        "lock"@ != "vendor-dir"@,
        "lock"@ != "bin-dir"@,
        "lock"@ != "cache-dir"@,
        "lock"@ != "data-dir"@,
        "lock"@ != "process-timeout"@,
        "lock"@ != "use-include-path"@,
        "lock"@ != "notify-on-install"@,
        "lock"@ != "optimize-autoloader"@,
        "lock"@ != "sort-packages"@,
        "lock"@ != "classmap-authoritative"@,
        "lock"@ != "apcu-autoloader"@,
        "lock"@ != "secure-http"@,
        "lock"@ != "disable-tls"@,
        "lock"@ != "preferred-install"@,
        "lock"@ != "store-auths"@,
        "lock"@ != "discard-changes"@,
        "lock"@ != "platform-check"@,
        "lock"@ != "allow-plugins"@,
        "lock"@ != "github-protocols"@,
        "lock"@ != "github-domains"@,
        "lock"@ != "gitlab-domains"@,
        "lock"@ != "platform"@,
        "lock"@ != "github-oauth"@,
        "lock"@ != "gitlab-oauth"@,
{
    reveal_strlit("lock");
    assert("lock"@.len() == 4);
    reveal_strlit("vendor-dir");
    assert("vendor-dir"@.len() == 10);
    reveal_strlit("bin-dir");
    assert("bin-dir"@.len() == 7);
    reveal_strlit("cache-dir");
    assert("cache-dir"@.len() == 9);
    reveal_strlit("data-dir");
    assert("data-dir"@.len() == 8);
    reveal_strlit("process-timeout");
    assert("process-timeout"@.len() == 15);
    reveal_strlit("use-include-path");
    assert("use-include-path"@.len() == 16);
    reveal_strlit("notify-on-install");
    assert("notify-on-install"@.len() == 17);
    reveal_strlit("optimize-autoloader");
    assert("optimize-autoloader"@.len() == 19);
    reveal_strlit("sort-packages");
    assert("sort-packages"@.len() == 13);
    reveal_strlit("classmap-authoritative");
    assert("classmap-authoritative"@.len() == 22);
    reveal_strlit("apcu-autoloader");
    assert("apcu-autoloader"@.len() == 15);
    reveal_strlit("secure-http");
    assert("secure-http"@.len() == 11);
    reveal_strlit("disable-tls");
    assert("disable-tls"@.len() == 11);
    reveal_strlit("preferred-install");
    assert("preferred-install"@.len() == 17);
    reveal_strlit("store-auths");
    assert("store-auths"@.len() == 11);
    reveal_strlit("discard-changes");
    assert("discard-changes"@.len() == 15);
    reveal_strlit("platform-check");
    assert("platform-check"@.len() == 14);
    reveal_strlit("allow-plugins");
    assert("allow-plugins"@.len() == 13);
    reveal_strlit("github-protocols");
    assert("github-protocols"@.len() == 16);
    reveal_strlit("github-domains");
    assert("github-domains"@.len() == 14);
    reveal_strlit("gitlab-domains");
    assert("gitlab-domains"@.len() == 14);
    reveal_strlit("platform");
    assert("platform"@.len() == 8);
    reveal_strlit("github-oauth");
    assert("github-oauth"@.len() == 12);
    reveal_strlit("gitlab-oauth");
    assert("gitlab-oauth"@.len() == 12);
}

proof fn lemma_is_preferred_install()
    ensures
        "preferred-install"@ != "vendor-dir"@,
        "preferred-install"@ != "bin-dir"@,
        "preferred-install"@ != "cache-dir"@,
        "preferred-install"@ != "data-dir"@,
        "preferred-install"@ != "process-timeout"@,
        "preferred-install"@ != "use-include-path"@,
        "preferred-install"@ != "notify-on-install"@,
        "preferred-install"@ != "optimize-autoloader"@,
        "preferred-install"@ != "sort-packages"@,
        "preferred-install"@ != "classmap-authoritative"@,
        "preferred-install"@ != "apcu-autoloader"@,
        "preferred-install"@ != "secure-http"@,
        "preferred-install"@ != "disable-tls"@,
        "preferred-install"@ != "lock"@,
        "preferred-install"@ != "store-auths"@,
        "preferred-install"@ != "discard-changes"@,
        "preferred-install"@ != "platform-check"@,
        "preferred-install"@ != "allow-plugins"@,
        "preferred-install"@ != "github-protocols"@,
        "preferred-install"@ != "github-domains"@,
        "preferred-install"@ != "gitlab-domains"@,
        "preferred-install"@ != "platform"@,
        "preferred-install"@ != "github-oauth"@,
        "preferred-install"@ != "gitlab-oauth"@,
{
    reveal_strlit("preferred-install");
    assert("preferred-install"@.len() == 17);
    reveal_strlit("vendor-dir");
    assert("vendor-dir"@.len() == 10);
    reveal_strlit("bin-dir");
    assert("bin-dir"@.len() == 7);
    reveal_strlit("cache-dir");
    assert("cache-dir"@.len() == 9);
    reveal_strlit("data-dir");
    assert("data-dir"@.len() == 8);
    reveal_strlit("process-timeout");
    assert("process-timeout"@.len() == 15);
    reveal_strlit("use-include-path");
    assert("use-include-path"@.len() == 16);
    reveal_strlit("notify-on-install");
    assert("preferred-install"@[0] != "notify-on-install"@[0]);
    reveal_strlit("optimize-autoloader");
    assert("optimize-autoloader"@.len() == 19);
    reveal_strlit("sort-packages");
    assert("sort-packages"@.len() == 13);
    reveal_strlit("classmap-authoritative");
    assert("classmap-authoritative"@.len() == 22);
    reveal_strlit("apcu-autoloader");
    assert("apcu-autoloader"@.len() == 15);
    reveal_strlit("secure-http");
    assert("secure-http"@.len() == 11);
    reveal_strlit("disable-tls");
    assert("disable-tls"@.len() == 11);
    reveal_strlit("lock");
    assert("lock"@.len() == 4);
    reveal_strlit("store-auths");
    assert("store-auths"@.len() == 11);
    reveal_strlit("discard-changes");
    assert("discard-changes"@.len() == 15);
    reveal_strlit("platform-check");
    assert("platform-check"@.len() == 14);
    reveal_strlit("allow-plugins");
    assert("allow-plugins"@.len() == 13);
    reveal_strlit("github-protocols");
    assert("github-protocols"@.len() == 16);
    reveal_strlit("github-domains");
    assert("github-domains"@.len() == 14);
    reveal_strlit("gitlab-domains");
    assert("gitlab-domains"@.len() == 14);
    reveal_strlit("platform");
    assert("platform"@.len() == 8);
    reveal_strlit("github-oauth");
    assert("github-oauth"@.len() == 12);
    reveal_strlit("gitlab-oauth");
    assert("gitlab-oauth"@.len() == 12);
}

proof fn lemma_is_store_auths()
    ensures
        "store-auths"@ != "vendor-dir"@,
        "store-auths"@ != "bin-dir"@,
        "store-auths"@ != "cache-dir"@,
        "store-auths"@ != "data-dir"@,
        "store-auths"@ != "process-timeout"@,
        "store-auths"@ != "use-include-path"@,
        "store-auths"@ != "notify-on-install"@,
        "store-auths"@ != "optimize-autoloader"@,
        "store-auths"@ != "sort-packages"@,
        "store-auths"@ != "classmap-authoritative"@,
        "store-auths"@ != "apcu-autoloader"@,
        "store-auths"@ != "secure-http"@,
        "store-auths"@ != "disable-tls"@,
        "store-auths"@ != "lock"@,
        "store-auths"@ != "preferred-install"@,
        "store-auths"@ != "discard-changes"@,
        "store-auths"@ != "platform-check"@,
        "store-auths"@ != "allow-plugins"@,
        "store-auths"@ != "github-protocols"@,
        "store-auths"@ != "github-domains"@,
        "store-auths"@ != "gitlab-domains"@,
        "store-auths"@ != "platform"@,
        "store-auths"@ != "github-oauth"@,
        "store-auths"@ != "gitlab-oauth"@,
{
    reveal_strlit("store-auths");
    assert("store-auths"@.len() == 11);
    reveal_strlit("vendor-dir");
    assert("vendor-dir"@.len() == 10);
    reveal_strlit("bin-dir");
    assert("bin-dir"@.len() == 7);
    reveal_strlit("cache-dir");
    assert("cache-dir"@.len() == 9);
    reveal_strlit("data-dir");
    assert("data-dir"@.len() == 8);
    reveal_strlit("process-timeout");
    assert("process-timeout"@.len() == 15);
    reveal_strlit("use-include-path");
    assert("use-include-path"@.len() == 16);
    reveal_strlit("notify-on-install");
    assert("notify-on-install"@.len() == 17);
    reveal_strlit("optimize-autoloader");
    assert("optimize-autoloader"@.len() == 19);
    reveal_strlit("sort-packages");
    assert("sort-packages"@.len() == 13);
    reveal_strlit("classmap-authoritative");
    assert("classmap-authoritative"@.len() == 22);
    reveal_strlit("apcu-autoloader");
    assert("apcu-autoloader"@.len() == 15);
    reveal_strlit("secure-http");
    assert("store-auths"@[1] != "secure-http"@[1]);
    reveal_strlit("disable-tls");
    assert("store-auths"@[0] != "disable-tls"@[0]);
    reveal_strlit("lock");
    assert("lock"@.len() == 4);
    reveal_strlit("preferred-install");
    assert("preferred-install"@.len() == 17);
    reveal_strlit("discard-changes");
    assert("discard-changes"@.len() == 15);
    reveal_strlit("platform-check");
    assert("platform-check"@.len() == 14);
    reveal_strlit("allow-plugins");
    assert("allow-plugins"@.len() == 13);
    reveal_strlit("github-protocols");
    assert("github-protocols"@.len() == 16);
    reveal_strlit("github-domains");
    assert("github-domains"@.len() == 14);
    reveal_strlit("gitlab-domains");
    assert("gitlab-domains"@.len() == 14);
    reveal_strlit("platform");
    assert("platform"@.len() == 8);
    reveal_strlit("github-oauth");
    assert("github-oauth"@.len() == 12);
    reveal_strlit("gitlab-oauth");
    assert("gitlab-oauth"@.len() == 12);
}

proof fn lemma_is_discard_changes()
    ensures
        "discard-changes"@ != "vendor-dir"@,
        "discard-changes"@ != "bin-dir"@,
        "discard-changes"@ != "cache-dir"@,
        "discard-changes"@ != "data-dir"@,
        "discard-changes"@ != "process-timeout"@,
        "discard-changes"@ != "use-include-path"@,
        "discard-changes"@ != "notify-on-install"@,
        "discard-changes"@ != "optimize-autoloader"@,
        "discard-changes"@ != "sort-packages"@,
        "discard-changes"@ != "classmap-authoritative"@,
        "discard-changes"@ != "apcu-autoloader"@,
        "discard-changes"@ != "secure-http"@,
        "discard-changes"@ != "disable-tls"@,
        "discard-changes"@ != "lock"@,
        "discard-changes"@ != "preferred-install"@,
        "discard-changes"@ != "store-auths"@,
        "discard-changes"@ != "platform-check"@,
        "discard-changes"@ != "allow-plugins"@,
        "discard-changes"@ != "github-protocols"@,
        "discard-changes"@ != "github-domains"@,
        "discard-changes"@ != "gitlab-domains"@,
        "discard-changes"@ != "platform"@,
        "discard-changes"@ != "github-oauth"@,
        "discard-changes"@ != "gitlab-oauth"@,
{
    reveal_strlit("discard-changes");
    assert("discard-changes"@.len() == 15);
    reveal_strlit("vendor-dir");
    assert("vendor-dir"@.len() == 10);
    reveal_strlit("bin-dir");
    assert("bin-dir"@.len() == 7);
    reveal_strlit("cache-dir");
    assert("cache-dir"@.len() == 9);
    reveal_strlit("data-dir");
    assert("data-dir"@.len() == 8);
    reveal_strlit("process-timeout");
    assert("discard-changes"@[0] != "process-timeout"@[0]);
    reveal_strlit("use-include-path");
    assert("use-include-path"@.len() == 16);
    reveal_strlit("notify-on-install");
    assert("notify-on-install"@.len() == 17);
    reveal_strlit("optimize-autoloader");
    assert("optimize-autoloader"@.len() == 19);
    reveal_strlit("sort-packages");
    assert("sort-packages"@.len() == 13);
    reveal_strlit("classmap-authoritative");
    assert("classmap-authoritative"@.len() == 22);
    reveal_strlit("apcu-autoloader");
    assert("discard-changes"@[0] != "apcu-autoloader"@[0]);
    reveal_strlit("secure-http");
    assert("secure-http"@.len() == 11);
    reveal_strlit("disable-tls");
    assert("disable-tls"@.len() == 11);
    reveal_strlit("lock");
    assert("lock"@.len() == 4);
    reveal_strlit("preferred-install");
    assert("preferred-install"@.len() == 17);
    reveal_strlit("store-auths");
    assert("store-auths"@.len() == 11);
    reveal_strlit("platform-check");
    assert("platform-check"@.len() == 14);
    reveal_strlit("allow-plugins");
    assert("allow-plugins"@.len() == 13);
    reveal_strlit("github-protocols");
    assert("github-protocols"@.len() == 16);
    reveal_strlit("github-domains");
    assert("github-domains"@.len() == 14);
    reveal_strlit("gitlab-domains");
    assert("gitlab-domains"@.len() == 14);
    reveal_strlit("platform");
    assert("platform"@.len() == 8);
    reveal_strlit("github-oauth");
    assert("github-oauth"@.len() == 12);
    reveal_strlit("gitlab-oauth");
    assert("gitlab-oauth"@.len() == 12);
}

proof fn lemma_is_platform_check()
    ensures
        "platform-check"@ != "vendor-dir"@,
        "platform-check"@ != "bin-dir"@,
        "platform-check"@ != "cache-dir"@,
        "platform-check"@ != "data-dir"@,
        "platform-check"@ != "process-timeout"@,
        "platform-check"@ != "use-include-path"@,
        "platform-check"@ != "notify-on-install"@,
        "platform-check"@ != "optimize-autoloader"@,
        "platform-check"@ != "sort-packages"@,
        "platform-check"@ != "classmap-authoritative"@,
        "platform-check"@ != "apcu-autoloader"@,
        "platform-check"@ != "secure-http"@,
        "platform-check"@ != "disable-tls"@,
        "platform-check"@ != "lock"@,
        "platform-check"@ != "preferred-install"@,
        "platform-check"@ != "store-auths"@,
        "platform-check"@ != "discard-changes"@,
        "platform-check"@ != "allow-plugins"@,
        "platform-check"@ != "github-protocols"@,
        "platform-check"@ != "github-domains"@,
        "platform-check"@ != "gitlab-domains"@,
        "platform-check"@ != "platform"@,
        "platform-check"@ != "github-oauth"@,
        "platform-check"@ != "gitlab-oauth"@,
{
    reveal_strlit("platform-check");
    assert("platform-check"@.len() == 14);
    reveal_strlit("vendor-dir");
    assert("vendor-dir"@.len() == 10);
    reveal_strlit("bin-dir");
    assert("bin-dir"@.len() == 7);
    reveal_strlit("cache-dir");
    assert("cache-dir"@.len() == 9);
    reveal_strlit("data-dir");
    assert("data-dir"@.len() == 8);
    reveal_strlit("process-timeout");
    assert("process-timeout"@.len() == 15);
    reveal_strlit("use-include-path");
    assert("use-include-path"@.len() == 16);
    reveal_strlit("notify-on-install");
    assert("notify-on-install"@.len() == 17);
    reveal_strlit("optimize-autoloader");
    assert("optimize-autoloader"@.len() == 19);
    reveal_strlit("sort-packages");
    assert("sort-packages"@.len() == 13);
    reveal_strlit("classmap-authoritative");
    assert("classmap-authoritative"@.len() == 22);
    reveal_strlit("apcu-autoloader");
    assert("apcu-autoloader"@.len() == 15);
    reveal_strlit("secure-http");
    assert("secure-http"@.len() == 11);
    reveal_strlit("disable-tls");
    assert("disable-tls"@.len() == 11);
    reveal_strlit("lock");
    assert("lock"@.len() == 4);
    reveal_strlit("preferred-install");
    assert("preferred-install"@.len() == 17);
    reveal_strlit("store-auths");
    assert("store-auths"@.len() == 11);
    reveal_strlit("discard-changes");
    assert("discard-changes"@.len() == 15);
    reveal_strlit("allow-plugins");
    assert("allow-plugins"@.len() == 13);
    reveal_strlit("github-protocols");
    assert("github-protocols"@.len() == 16);
    reveal_strlit("github-domains");
    assert("platform-check"@[0] != "github-domains"@[0]);
    reveal_strlit("gitlab-domains");
    assert("platform-check"@[0] != "gitlab-domains"@[0]);
    reveal_strlit("platform");
    assert("platform"@.len() == 8);
    reveal_strlit("github-oauth");
    assert("github-oauth"@.len() == 12);
    reveal_strlit("gitlab-oauth");
    assert("gitlab-oauth"@.len() == 12);
}

proof fn lemma_is_allow_plugins()
    ensures
        "allow-plugins"@ != "vendor-dir"@,
        "allow-plugins"@ != "bin-dir"@,
        "allow-plugins"@ != "cache-dir"@,
        "allow-plugins"@ != "data-dir"@,
        "allow-plugins"@ != "process-timeout"@,
        "allow-plugins"@ != "use-include-path"@,
        "allow-plugins"@ != "notify-on-install"@,
        "allow-plugins"@ != "optimize-autoloader"@,
        "allow-plugins"@ != "sort-packages"@,
        "allow-plugins"@ != "classmap-authoritative"@,
        "allow-plugins"@ != "apcu-autoloader"@,
        "allow-plugins"@ != "secure-http"@,
        "allow-plugins"@ != "disable-tls"@,
        "allow-plugins"@ != "lock"@,
        "allow-plugins"@ != "preferred-install"@,
        "allow-plugins"@ != "store-auths"@,
        "allow-plugins"@ != "discard-changes"@,
        "allow-plugins"@ != "platform-check"@,
        "allow-plugins"@ != "github-protocols"@,
        "allow-plugins"@ != "github-domains"@,
        "allow-plugins"@ != "gitlab-domains"@,
        "allow-plugins"@ != "platform"@,
        "allow-plugins"@ != "github-oauth"@,
        "allow-plugins"@ != "gitlab-oauth"@,
{
    reveal_strlit("allow-plugins");
    assert("allow-plugins"@.len() == 13);
    reveal_strlit("vendor-dir");
    assert("vendor-dir"@.len() == 10);
    reveal_strlit("bin-dir");
    assert("bin-dir"@.len() == 7);
    reveal_strlit("cache-dir");
    assert("cache-dir"@.len() == 9);
    reveal_strlit("data-dir");
    assert("data-dir"@.len() == 8);
    reveal_strlit("process-timeout");
    assert("process-timeout"@.len() == 15);
    reveal_strlit("use-include-path");
    assert("use-include-path"@.len() == 16);
    reveal_strlit("notify-on-install");
    assert("notify-on-install"@.len() == 17);
    reveal_strlit("optimize-autoloader");
    assert("optimize-autoloader"@.len() == 19);
    reveal_strlit("sort-packages");
    assert("allow-plugins"@[0] != "sort-packages"@[0]);
    reveal_strlit("classmap-authoritative");
    assert("classmap-authoritative"@.len() == 22);
    reveal_strlit("apcu-autoloader");
    assert("apcu-autoloader"@.len() == 15);
    reveal_strlit("secure-http");
    assert("secure-http"@.len() == 11);
    reveal_strlit("disable-tls");
    assert("disable-tls"@.len() == 11);
    reveal_strlit("lock");
    assert("lock"@.len() == 4);
    reveal_strlit("preferred-install");
    assert("preferred-install"@.len() == 17);
    reveal_strlit("store-auths");
    assert("store-auths"@.len() == 11);
    reveal_strlit("discard-changes");
    assert("discard-changes"@.len() == 15);
    reveal_strlit("platform-check");
    assert("platform-check"@.len() == 14);
    reveal_strlit("github-protocols");
    assert("github-protocols"@.len() == 16);
    reveal_strlit("github-domains");
    assert("github-domains"@.len() == 14);
    reveal_strlit("gitlab-domains");
    assert("gitlab-domains"@.len() == 14);
    reveal_strlit("platform");
    assert("platform"@.len() == 8);
    reveal_strlit("github-oauth");
    assert("github-oauth"@.len() == 12);
    reveal_strlit("gitlab-oauth");
    assert("gitlab-oauth"@.len() == 12);
}

proof fn lemma_is_github_protocols()
    ensures
        "github-protocols"@ != "vendor-dir"@,
        "github-protocols"@ != "bin-dir"@,
        "github-protocols"@ != "cache-dir"@,
        "github-protocols"@ != "data-dir"@,
        "github-protocols"@ != "process-timeout"@,
        "github-protocols"@ != "use-include-path"@,
        "github-protocols"@ != "notify-on-install"@,
        "github-protocols"@ != "optimize-autoloader"@,
        "github-protocols"@ != "sort-packages"@,
        "github-protocols"@ != "classmap-authoritative"@,
        "github-protocols"@ != "apcu-autoloader"@,
        "github-protocols"@ != "secure-http"@,
        "github-protocols"@ != "disable-tls"@,
        "github-protocols"@ != "lock"@,
        "github-protocols"@ != "preferred-install"@,
        "github-protocols"@ != "store-auths"@,
        "github-protocols"@ != "discard-changes"@,
        "github-protocols"@ != "platform-check"@,
        "github-protocols"@ != "allow-plugins"@,
        "github-protocols"@ != "github-domains"@,
        "github-protocols"@ != "gitlab-domains"@,
        "github-protocols"@ != "platform"@,
        "github-protocols"@ != "github-oauth"@,
        "github-protocols"@ != "gitlab-oauth"@,
{
    reveal_strlit("github-protocols");
    assert("github-protocols"@.len() == 16);
    reveal_strlit("vendor-dir");
    assert("vendor-dir"@.len() == 10);
    reveal_strlit("bin-dir");
    assert("bin-dir"@.len() == 7);
    reveal_strlit("cache-dir");
    assert("cache-dir"@.len() == 9);
    reveal_strlit("data-dir");
    assert("data-dir"@.len() == 8);
    reveal_strlit("process-timeout");
    assert("process-timeout"@.len() == 15);
    reveal_strlit("use-include-path");
    assert("github-protocols"@[0] != "use-include-path"@[0]);
    reveal_strlit("notify-on-install");
    assert("notify-on-install"@.len() == 17);
    reveal_strlit("optimize-autoloader");
    assert("optimize-autoloader"@.len() == 19);
    reveal_strlit("sort-packages");
    assert("sort-packages"@.len() == 13);
    reveal_strlit("classmap-authoritative");
    assert("classmap-authoritative"@.len() == 22);
    reveal_strlit("apcu-autoloader");
    assert("apcu-autoloader"@.len() == 15);
    reveal_strlit("secure-http");
    assert("secure-http"@.len() == 11);
    reveal_strlit("disable-tls");
    assert("disable-tls"@.len() == 11);
    reveal_strlit("lock");
    assert("lock"@.len() == 4);
    reveal_strlit("preferred-install");
    assert("preferred-install"@.len() == 17);
    reveal_strlit("store-auths");
    assert("store-auths"@.len() == 11);
    reveal_strlit("discard-changes");
    assert("discard-changes"@.len() == 15);
    reveal_strlit("platform-check");
    assert("platform-check"@.len() == 14);
    reveal_strlit("allow-plugins");
    assert("allow-plugins"@.len() == 13);
    reveal_strlit("github-domains");
    assert("github-domains"@.len() == 14);
    reveal_strlit("gitlab-domains");
    assert("gitlab-domains"@.len() == 14);
    reveal_strlit("platform");
    assert("platform"@.len() == 8);
    reveal_strlit("github-oauth");
    assert("github-oauth"@.len() == 12);
    reveal_strlit("gitlab-oauth");
    assert("gitlab-oauth"@.len() == 12);
}

proof fn lemma_is_github_domains()
    ensures
        "github-domains"@ != "vendor-dir"@,
        "github-domains"@ != "bin-dir"@,
        "github-domains"@ != "cache-dir"@,
        "github-domains"@ != "data-dir"@,
        "github-domains"@ != "process-timeout"@,
        "github-domains"@ != "use-include-path"@,
        "github-domains"@ != "notify-on-install"@,
        "github-domains"@ != "optimize-autoloader"@,
        "github-domains"@ != "sort-packages"@,
        "github-domains"@ != "classmap-authoritative"@,
        "github-domains"@ != "apcu-autoloader"@,
        "github-domains"@ != "secure-http"@,
        "github-domains"@ != "disable-tls"@,
        "github-domains"@ != "lock"@,
        "github-domains"@ != "preferred-install"@,
        "github-domains"@ != "store-auths"@,
        "github-domains"@ != "discard-changes"@,
        "github-domains"@ != "platform-check"@,
        "github-domains"@ != "allow-plugins"@,
        "github-domains"@ != "github-protocols"@,
        "github-domains"@ != "gitlab-domains"@,
        "github-domains"@ != "platform"@,
        "github-domains"@ != "github-oauth"@,
        "github-domains"@ != "gitlab-oauth"@,
{
    reveal_strlit("github-domains");
    assert("github-domains"@.len() == 14);
    reveal_strlit("vendor-dir");
    assert("vendor-dir"@.len() == 10);
    reveal_strlit("bin-dir");
    assert("bin-dir"@.len() == 7);
    reveal_strlit("cache-dir");
    assert("cache-dir"@.len() == 9);
    reveal_strlit("data-dir");
    assert("data-dir"@.len() == 8);
    reveal_strlit("process-timeout");
    assert("process-timeout"@.len() == 15);
    reveal_strlit("use-include-path");
    assert("use-include-path"@.len() == 16);
    reveal_strlit("notify-on-install");
    assert("notify-on-install"@.len() == 17);
    reveal_strlit("optimize-autoloader");
    assert("optimize-autoloader"@.len() == 19);
    reveal_strlit("sort-packages");
    assert("sort-packages"@.len() == 13);
    reveal_strlit("classmap-authoritative");
    assert("classmap-authoritative"@.len() == 22);
    reveal_strlit("apcu-autoloader");
    assert("apcu-autoloader"@.len() == 15);
    reveal_strlit("secure-http");
    assert("secure-http"@.len() == 11);
    reveal_strlit("disable-tls");
    assert("disable-tls"@.len() == 11);
    reveal_strlit("lock");
    assert("lock"@.len() == 4);
    reveal_strlit("preferred-install");
    assert("preferred-install"@.len() == 17);
    reveal_strlit("store-auths");
    assert("store-auths"@.len() == 11);
    reveal_strlit("discard-changes");
    assert("discard-changes"@.len() == 15);
    reveal_strlit("platform-check");
    assert("github-domains"@[0] != "platform-check"@[0]);
    reveal_strlit("allow-plugins");
    assert("allow-plugins"@.len() == 13);
    reveal_strlit("github-protocols");
    assert("github-protocols"@.len() == 16);
    reveal_strlit("gitlab-domains");
    assert("github-domains"@[3] != "gitlab-domains"@[3]);
    reveal_strlit("platform");
    assert("platform"@.len() == 8);
    reveal_strlit("github-oauth");
    assert("github-oauth"@.len() == 12);
    reveal_strlit("gitlab-oauth");
    assert("gitlab-oauth"@.len() == 12);
}

proof fn lemma_is_gitlab_domains()
    ensures
        "gitlab-domains"@ != "vendor-dir"@,
        "gitlab-domains"@ != "bin-dir"@,
        "gitlab-domains"@ != "cache-dir"@,
        "gitlab-domains"@ != "data-dir"@,
        "gitlab-domains"@ != "process-timeout"@,
        "gitlab-domains"@ != "use-include-path"@,
        "gitlab-domains"@ != "notify-on-install"@,
        "gitlab-domains"@ != "optimize-autoloader"@,
        "gitlab-domains"@ != "sort-packages"@,
        "gitlab-domains"@ != "classmap-authoritative"@,
        "gitlab-domains"@ != "apcu-autoloader"@,
        "gitlab-domains"@ != "secure-http"@,
        "gitlab-domains"@ != "disable-tls"@,
        "gitlab-domains"@ != "lock"@,
        "gitlab-domains"@ != "preferred-install"@,
        "gitlab-domains"@ != "store-auths"@,
        "gitlab-domains"@ != "discard-changes"@,
        "gitlab-domains"@ != "platform-check"@,
        "gitlab-domains"@ != "allow-plugins"@,
        "gitlab-domains"@ != "github-protocols"@,
        "gitlab-domains"@ != "github-domains"@,
        "gitlab-domains"@ != "platform"@,
        "gitlab-domains"@ != "github-oauth"@,
        "gitlab-domains"@ != "gitlab-oauth"@,
{
    reveal_strlit("gitlab-domains");
    assert("gitlab-domains"@.len() == 14);
    reveal_strlit("vendor-dir");
    assert("vendor-dir"@.len() == 10);
    reveal_strlit("bin-dir");
    assert("bin-dir"@.len() == 7);
    reveal_strlit("cache-dir");
    assert("cache-dir"@.len() == 9);
    reveal_strlit("data-dir");
    assert("data-dir"@.len() == 8);
    reveal_strlit("process-timeout");
    assert("process-timeout"@.len() == 15);
    reveal_strlit("use-include-path");
    assert("use-include-path"@.len() == 16);
    reveal_strlit("notify-on-install");
    assert("notify-on-install"@.len() == 17);
    reveal_strlit("optimize-autoloader");
    assert("optimize-autoloader"@.len() == 19);
    reveal_strlit("sort-packages");
    assert("sort-packages"@.len() == 13);
    reveal_strlit("classmap-authoritative");
    assert("classmap-authoritative"@.len() == 22);
    reveal_strlit("apcu-autoloader");
    assert("apcu-autoloader"@.len() == 15);
    reveal_strlit("secure-http");
    assert("secure-http"@.len() == 11);
    reveal_strlit("disable-tls");
    assert("disable-tls"@.len() == 11);
    reveal_strlit("lock");
    assert("lock"@.len() == 4);
    reveal_strlit("preferred-install");
    assert("preferred-install"@.len() == 17);
    reveal_strlit("store-auths");
    assert("store-auths"@.len() == 11);
    reveal_strlit("discard-changes");
    assert("discard-changes"@.len() == 15);
    reveal_strlit("platform-check");
    assert("gitlab-domains"@[0] != "platform-check"@[0]);
    reveal_strlit("allow-plugins");
    assert("allow-plugins"@.len() == 13);
    reveal_strlit("github-protocols");
    assert("github-protocols"@.len() == 16);
    reveal_strlit("github-domains");
    assert("gitlab-domains"@[3] != "github-domains"@[3]);
    reveal_strlit("platform");
    assert("platform"@.len() == 8);
    reveal_strlit("github-oauth");
    assert("github-oauth"@.len() == 12);
    reveal_strlit("gitlab-oauth");
    assert("gitlab-oauth"@.len() == 12);
}

proof fn lemma_is_platform()
    ensures
        "platform"@ != "vendor-dir"@,
        "platform"@ != "bin-dir"@,
        "platform"@ != "cache-dir"@,
        "platform"@ != "data-dir"@,
        "platform"@ != "process-timeout"@,
        "platform"@ != "use-include-path"@,
        "platform"@ != "notify-on-install"@,
        "platform"@ != "optimize-autoloader"@,
        "platform"@ != "sort-packages"@,
        "platform"@ != "classmap-authoritative"@,
        "platform"@ != "apcu-autoloader"@,
        "platform"@ != "secure-http"@,
        "platform"@ != "disable-tls"@,
        "platform"@ != "lock"@,
        "platform"@ != "preferred-install"@,
        "platform"@ != "store-auths"@,
        "platform"@ != "discard-changes"@,
        "platform"@ != "platform-check"@,
        "platform"@ != "allow-plugins"@,
        "platform"@ != "github-protocols"@,
        "platform"@ != "github-domains"@,
        "platform"@ != "gitlab-domains"@,
        "platform"@ != "github-oauth"@,
        "platform"@ != "gitlab-oauth"@,
{
    reveal_strlit("platform");
    assert("platform"@.len() == 8);
    reveal_strlit("vendor-dir");
    assert("vendor-dir"@.len() == 10);
    reveal_strlit("bin-dir");
    assert("bin-dir"@.len() == 7);
    reveal_strlit("cache-dir");
    assert("cache-dir"@.len() == 9);
    reveal_strlit("data-dir");
    assert("platform"@[0] != "data-dir"@[0]);
    reveal_strlit("process-timeout");
    assert("process-timeout"@.len() == 15);
    reveal_strlit("use-include-path");
    assert("use-include-path"@.len() == 16);
    reveal_strlit("notify-on-install");
    assert("notify-on-install"@.len() == 17);
    reveal_strlit("optimize-autoloader");
    assert("optimize-autoloader"@.len() == 19);
    reveal_strlit("sort-packages");
    assert("sort-packages"@.len() == 13);
    reveal_strlit("classmap-authoritative");
    assert("classmap-authoritative"@.len() == 22);
    reveal_strlit("apcu-autoloader");
    assert("apcu-autoloader"@.len() == 15);
    reveal_strlit("secure-http");
    assert("secure-http"@.len() == 11);
    reveal_strlit("disable-tls");
    assert("disable-tls"@.len() == 11);
    reveal_strlit("lock");
    assert("lock"@.len() == 4);
    reveal_strlit("preferred-install");
    assert("preferred-install"@.len() == 17);
    reveal_strlit("store-auths");
    assert("store-auths"@.len() == 11);
    reveal_strlit("discard-changes");
    assert("discard-changes"@.len() == 15);
    reveal_strlit("platform-check");
    assert("platform-check"@.len() == 14);
    reveal_strlit("allow-plugins");
    assert("allow-plugins"@.len() == 13);
    reveal_strlit("github-protocols");
    assert("github-protocols"@.len() == 16);
    reveal_strlit("github-domains");
    assert("github-domains"@.len() == 14);
    reveal_strlit("gitlab-domains");
    assert("gitlab-domains"@.len() == 14);
    reveal_strlit("github-oauth");
    assert("github-oauth"@.len() == 12);
    reveal_strlit("gitlab-oauth");
    assert("gitlab-oauth"@.len() == 12);
}

proof fn lemma_is_github_oauth()
    ensures
        "github-oauth"@ != "vendor-dir"@,
        "github-oauth"@ != "bin-dir"@,
        "github-oauth"@ != "cache-dir"@,
        "github-oauth"@ != "data-dir"@,
        "github-oauth"@ != "process-timeout"@,
        "github-oauth"@ != "use-include-path"@,
        "github-oauth"@ != "notify-on-install"@,
        "github-oauth"@ != "optimize-autoloader"@,
        "github-oauth"@ != "sort-packages"@,
        "github-oauth"@ != "classmap-authoritative"@,
        "github-oauth"@ != "apcu-autoloader"@,
        "github-oauth"@ != "secure-http"@,
        "github-oauth"@ != "disable-tls"@,
        "github-oauth"@ != "lock"@,
        "github-oauth"@ != "preferred-install"@,
        "github-oauth"@ != "store-auths"@,
        "github-oauth"@ != "discard-changes"@,
        "github-oauth"@ != "platform-check"@,
        "github-oauth"@ != "allow-plugins"@,
        "github-oauth"@ != "github-protocols"@,
        "github-oauth"@ != "github-domains"@,
        "github-oauth"@ != "gitlab-domains"@,
        "github-oauth"@ != "platform"@,
        "github-oauth"@ != "gitlab-oauth"@,
{
    reveal_strlit("github-oauth");
    assert("github-oauth"@.len() == 12);
    reveal_strlit("vendor-dir");
    assert("vendor-dir"@.len() == 10);
    reveal_strlit("bin-dir");
    assert("bin-dir"@.len() == 7);
    reveal_strlit("cache-dir");
    assert("cache-dir"@.len() == 9);
    reveal_strlit("data-dir");
    assert("data-dir"@.len() == 8);
    reveal_strlit("process-timeout");
    assert("process-timeout"@.len() == 15);
    reveal_strlit("use-include-path");
    assert("use-include-path"@.len() == 16);
    reveal_strlit("notify-on-install");
    assert("notify-on-install"@.len() == 17);
    reveal_strlit("optimize-autoloader");
    assert("optimize-autoloader"@.len() == 19);
    reveal_strlit("sort-packages");
    assert("sort-packages"@.len() == 13);
    reveal_strlit("classmap-authoritative");
    assert("classmap-authoritative"@.len() == 22);
    reveal_strlit("apcu-autoloader");
    assert("apcu-autoloader"@.len() == 15);
    reveal_strlit("secure-http");
    assert("secure-http"@.len() == 11);
    reveal_strlit("disable-tls");
    assert("disable-tls"@.len() == 11);
    reveal_strlit("lock");
    assert("lock"@.len() == 4);
    reveal_strlit("preferred-install");
    assert("preferred-install"@.len() == 17);
    reveal_strlit("store-auths");
    assert("store-auths"@.len() == 11);
    reveal_strlit("discard-changes");
    assert("discard-changes"@.len() == 15);
    reveal_strlit("platform-check");
    assert("platform-check"@.len() == 14);
    reveal_strlit("allow-plugins");
    assert("allow-plugins"@.len() == 13);
    reveal_strlit("github-protocols");
    assert("github-protocols"@.len() == 16);
    reveal_strlit("github-domains");
    assert("github-domains"@.len() == 14);
    reveal_strlit("gitlab-domains");
    assert("gitlab-domains"@.len() == 14);
    reveal_strlit("platform");
    assert("platform"@.len() == 8);
    reveal_strlit("gitlab-oauth");
    assert("github-oauth"@[3] != "gitlab-oauth"@[3]);
}

proof fn lemma_is_gitlab_oauth()
    ensures
        "gitlab-oauth"@ != "vendor-dir"@,
        "gitlab-oauth"@ != "bin-dir"@,
        "gitlab-oauth"@ != "cache-dir"@,
        "gitlab-oauth"@ != "data-dir"@,
        "gitlab-oauth"@ != "process-timeout"@,
        "gitlab-oauth"@ != "use-include-path"@,
        "gitlab-oauth"@ != "notify-on-install"@,
        "gitlab-oauth"@ != "optimize-autoloader"@,
        "gitlab-oauth"@ != "sort-packages"@,
        "gitlab-oauth"@ != "classmap-authoritative"@,
        "gitlab-oauth"@ != "apcu-autoloader"@,
        "gitlab-oauth"@ != "secure-http"@,
        "gitlab-oauth"@ != "disable-tls"@,
        "gitlab-oauth"@ != "lock"@,
        "gitlab-oauth"@ != "preferred-install"@,
        "gitlab-oauth"@ != "store-auths"@,
        "gitlab-oauth"@ != "discard-changes"@,
        "gitlab-oauth"@ != "platform-check"@,
        "gitlab-oauth"@ != "allow-plugins"@,
        "gitlab-oauth"@ != "github-protocols"@,
        "gitlab-oauth"@ != "github-domains"@,
        "gitlab-oauth"@ != "gitlab-domains"@,
        "gitlab-oauth"@ != "platform"@,
        "gitlab-oauth"@ != "github-oauth"@,
{
    reveal_strlit("gitlab-oauth");
    assert("gitlab-oauth"@.len() == 12);
    reveal_strlit("vendor-dir");
    assert("vendor-dir"@.len() == 10);
    reveal_strlit("bin-dir");
    assert("bin-dir"@.len() == 7);
    reveal_strlit("cache-dir");
    assert("cache-dir"@.len() == 9);
    reveal_strlit("data-dir");
    assert("data-dir"@.len() == 8);
    reveal_strlit("process-timeout");
    assert("process-timeout"@.len() == 15);
    reveal_strlit("use-include-path");
    assert("use-include-path"@.len() == 16);
    reveal_strlit("notify-on-install");
    assert("notify-on-install"@.len() == 17);
    reveal_strlit("optimize-autoloader");
    assert("optimize-autoloader"@.len() == 19);
    reveal_strlit("sort-packages");
    assert("sort-packages"@.len() == 13);
    reveal_strlit("classmap-authoritative");
    assert("classmap-authoritative"@.len() == 22);
    reveal_strlit("apcu-autoloader");
    assert("apcu-autoloader"@.len() == 15);
    reveal_strlit("secure-http");
    assert("secure-http"@.len() == 11);
    reveal_strlit("disable-tls");
    assert("disable-tls"@.len() == 11);
    reveal_strlit("lock");
    assert("lock"@.len() == 4);
    reveal_strlit("preferred-install");
    assert("preferred-install"@.len() == 17);
    reveal_strlit("store-auths");
    assert("store-auths"@.len() == 11);
    reveal_strlit("discard-changes");
    assert("discard-changes"@.len() == 15);
    reveal_strlit("platform-check");
    assert("platform-check"@.len() == 14);
    reveal_strlit("allow-plugins");
    assert("allow-plugins"@.len() == 13);
    reveal_strlit("github-protocols");
    assert("github-protocols"@.len() == 16);
    reveal_strlit("github-domains");
    assert("github-domains"@.len() == 14);
    reveal_strlit("gitlab-domains");
    assert("gitlab-domains"@.len() == 14);
    reveal_strlit("platform");
    assert("platform"@.len() == 8);
    reveal_strlit("github-oauth");
    assert("gitlab-oauth"@[3] != "github-oauth"@[3]);
}

proof fn lemma_vendor_dir_takes_effect(c: ConfigView, source: SourceView, t: Seq<char>)
    ensures
        merged_value(c, "vendor-dir"@, JsonView::Text(t), source).vendor_dir == t,
{
    lemma_is_vendor_dir();
    reveal(path_effect);
    reveal(switch_effect);
    reveal(choice_effect);
    reveal(list_effect);
}

proof fn lemma_bin_dir_takes_effect(c: ConfigView, source: SourceView, t: Seq<char>)
    ensures
        merged_value(c, "bin-dir"@, JsonView::Text(t), source).bin_dir == t,
{
    lemma_is_bin_dir();
    reveal(path_effect);
    reveal(switch_effect);
    reveal(choice_effect);
    reveal(list_effect);
}

proof fn lemma_cache_dir_takes_effect(c: ConfigView, source: SourceView, t: Seq<char>)
    ensures
        merged_value(c, "cache-dir"@, JsonView::Text(t), source).cache_dir == Some(t),
{
    lemma_is_cache_dir();
    reveal(path_effect);
    reveal(switch_effect);
    reveal(choice_effect);
    reveal(list_effect);
}

proof fn lemma_data_dir_takes_effect(c: ConfigView, source: SourceView, t: Seq<char>)
    ensures
        merged_value(c, "data-dir"@, JsonView::Text(t), source).data_dir == Some(t),
{
    lemma_is_data_dir();
    reveal(path_effect);
    reveal(switch_effect);
    reveal(choice_effect);
    reveal(list_effect);
}

proof fn lemma_process_timeout_takes_effect(c: ConfigView, source: SourceView, n: u64)
    ensures
        merged_value(c, "process-timeout"@, JsonView::Number(NumberView::Unsigned(n)), source).process_timeout == n,
{
    lemma_is_process_timeout();
    reveal(path_effect);
    reveal(switch_effect);
    reveal(choice_effect);
    reveal(list_effect);
}

proof fn lemma_use_include_path_takes_effect(c: ConfigView, source: SourceView, b: bool)
    ensures
        merged_value(c, "use-include-path"@, JsonView::Bool(b), source).use_include_path == b,
{
    lemma_is_use_include_path();
    reveal(path_effect);
    reveal(switch_effect);
    reveal(choice_effect);
    reveal(list_effect);
}

proof fn lemma_notify_on_install_takes_effect(c: ConfigView, source: SourceView, b: bool)
    ensures
        merged_value(c, "notify-on-install"@, JsonView::Bool(b), source).notify_on_install == b,
{
    lemma_is_notify_on_install();
    reveal(path_effect);
    reveal(switch_effect);
    reveal(choice_effect);
    reveal(list_effect);
}

proof fn lemma_optimize_autoloader_takes_effect(c: ConfigView, source: SourceView, b: bool)
    ensures
        merged_value(c, "optimize-autoloader"@, JsonView::Bool(b), source).optimize_autoloader == b,
{
    lemma_is_optimize_autoloader();
    reveal(path_effect);
    reveal(switch_effect);
    reveal(choice_effect);
    reveal(list_effect);
}

proof fn lemma_sort_packages_takes_effect(c: ConfigView, source: SourceView, b: bool)
    ensures
        merged_value(c, "sort-packages"@, JsonView::Bool(b), source).sort_packages == b,
{
    lemma_is_sort_packages();
    reveal(path_effect);
    reveal(switch_effect);
    reveal(choice_effect);
    reveal(list_effect);
}

proof fn lemma_classmap_authoritative_takes_effect(c: ConfigView, source: SourceView, b: bool)
    ensures
        merged_value(c, "classmap-authoritative"@, JsonView::Bool(b), source).classmap_authoritative == b,
{
    lemma_is_classmap_authoritative();
    reveal(path_effect);
    reveal(switch_effect);
    reveal(choice_effect);
    reveal(list_effect);
}

proof fn lemma_apcu_autoloader_takes_effect(c: ConfigView, source: SourceView, b: bool)
    ensures
        merged_value(c, "apcu-autoloader"@, JsonView::Bool(b), source).apcu_autoloader == b,
{
    lemma_is_apcu_autoloader();
    reveal(path_effect);
    reveal(switch_effect);
    reveal(choice_effect);
    reveal(list_effect);
}

proof fn lemma_secure_http_takes_effect(c: ConfigView, source: SourceView, b: bool)
    ensures
        merged_value(c, "secure-http"@, JsonView::Bool(b), source).secure_http == b,
{
    lemma_is_secure_http();
    reveal(path_effect);
    reveal(switch_effect);
    reveal(choice_effect);
    reveal(list_effect);
}

proof fn lemma_disable_tls_takes_effect(c: ConfigView, source: SourceView, b: bool)
    ensures
        merged_value(c, "disable-tls"@, JsonView::Bool(b), source).disable_tls == b,
{
    lemma_is_disable_tls();
    reveal(path_effect);
    reveal(switch_effect);
    reveal(choice_effect);
    reveal(list_effect);
}

proof fn lemma_lock_takes_effect(c: ConfigView, source: SourceView, b: bool)
    ensures
        merged_value(c, "lock"@, JsonView::Bool(b), source).lock == b,
{
    lemma_is_lock();
    reveal(path_effect);
    reveal(switch_effect);
    reveal(choice_effect);
    reveal(list_effect);
}

/// The directories and the timeout that a file sets are in force.
pub proof fn law_directories_are_those_set(c: ConfigView, source: SourceView, t: Seq<char>, n: u64)
    ensures
        merged_value(c, "vendor-dir"@, JsonView::Text(t), source).vendor_dir == t,
        merged_value(c, "bin-dir"@, JsonView::Text(t), source).bin_dir == t,
        merged_value(c, "cache-dir"@, JsonView::Text(t), source).cache_dir == Some(t),
        merged_value(c, "data-dir"@, JsonView::Text(t), source).data_dir == Some(t),
        merged_value(c, "process-timeout"@, JsonView::Number(NumberView::Unsigned(n)), source).process_timeout == n,
{
    lemma_vendor_dir_takes_effect(c, source, t);
    lemma_bin_dir_takes_effect(c, source, t);
    lemma_cache_dir_takes_effect(c, source, t);
    lemma_data_dir_takes_effect(c, source, t);
    lemma_process_timeout_takes_effect(c, source, n);
}

/// Every switch that a file sets is in force, on or off.
pub proof fn law_switches_are_as_set(c: ConfigView, source: SourceView, b: bool)
    ensures
        merged_value(c, "use-include-path"@, JsonView::Bool(b), source).use_include_path == b,
        merged_value(c, "notify-on-install"@, JsonView::Bool(b), source).notify_on_install == b,
        merged_value(c, "optimize-autoloader"@, JsonView::Bool(b), source).optimize_autoloader == b,
        merged_value(c, "sort-packages"@, JsonView::Bool(b), source).sort_packages == b,
        merged_value(c, "classmap-authoritative"@, JsonView::Bool(b), source).classmap_authoritative == b,
        merged_value(c, "apcu-autoloader"@, JsonView::Bool(b), source).apcu_autoloader == b,
        merged_value(c, "secure-http"@, JsonView::Bool(b), source).secure_http == b,
        merged_value(c, "disable-tls"@, JsonView::Bool(b), source).disable_tls == b,
        merged_value(c, "lock"@, JsonView::Bool(b), source).lock == b,
{
    lemma_use_include_path_takes_effect(c, source, b);
    lemma_notify_on_install_takes_effect(c, source, b);
    lemma_optimize_autoloader_takes_effect(c, source, b);
    lemma_sort_packages_takes_effect(c, source, b);
    lemma_classmap_authoritative_takes_effect(c, source, b);
    lemma_apcu_autoloader_takes_effect(c, source, b);
    lemma_secure_http_takes_effect(c, source, b);
    lemma_disable_tls_takes_effect(c, source, b);
    lemma_lock_takes_effect(c, source, b);
}

proof fn lemma_preferred_install_takes_effect(c: ConfigView, source: SourceView, t: Seq<char>)
    ensures
        PreferredInstall::named(t) matches Some(x) ==> merged_value(c, "preferred-install"@, JsonView::Text(t), source).preferred_install == x,
{
    lemma_is_preferred_install();
    reveal(path_effect);
    reveal(switch_effect);
    reveal(choice_effect);
    reveal(list_effect);
}

proof fn lemma_store_auths_takes_effect(c: ConfigView, source: SourceView, t: Seq<char>)
    ensures
        StoreAuths::named(t) matches Some(x) ==> merged_value(c, "store-auths"@, JsonView::Text(t), source).store_auths == x,
{
    lemma_is_store_auths();
    reveal(path_effect);
    reveal(switch_effect);
    reveal(choice_effect);
    reveal(list_effect);
}

proof fn lemma_discard_changes_takes_effect(c: ConfigView, source: SourceView, t: Seq<char>)
    ensures
        DiscardChanges::named(t) matches Some(x) ==> merged_value(c, "discard-changes"@, JsonView::Text(t), source).discard_changes == x,
{
    lemma_is_discard_changes();
    reveal(path_effect);
    reveal(switch_effect);
    reveal(choice_effect);
    reveal(list_effect);
}

proof fn lemma_platform_check_takes_effect(c: ConfigView, source: SourceView, t: Seq<char>)
    ensures
        PlatformCheck::named(t) matches Some(x) ==> merged_value(c, "platform-check"@, JsonView::Text(t), source).platform_check == x,
{
    lemma_is_platform_check();
    reveal(path_effect);
    reveal(switch_effect);
    reveal(choice_effect);
    reveal(list_effect);
}

/// Every choice that a file makes with a word that is known is in force.
pub proof fn law_choices_are_as_set(c: ConfigView, source: SourceView, t: Seq<char>)
    ensures
        PreferredInstall::named(t) matches Some(x) ==> merged_value(c, "preferred-install"@, JsonView::Text(t), source).preferred_install == x,
        StoreAuths::named(t) matches Some(x) ==> merged_value(c, "store-auths"@, JsonView::Text(t), source).store_auths == x,
        DiscardChanges::named(t) matches Some(x) ==> merged_value(c, "discard-changes"@, JsonView::Text(t), source).discard_changes == x,
        PlatformCheck::named(t) matches Some(x) ==> merged_value(c, "platform-check"@, JsonView::Text(t), source).platform_check == x,
{
    lemma_preferred_install_takes_effect(c, source, t);
    lemma_store_auths_takes_effect(c, source, t);
    lemma_discard_changes_takes_effect(c, source, t);
    lemma_platform_check_takes_effect(c, source, t);
}

proof fn lemma_allow_plugins_takes_effect(c: ConfigView, source: SourceView, b: bool)
    ensures
        merged_value(c, "allow-plugins"@, JsonView::Bool(b), source).allow_plugins == PluginsView::Bool(b),
{
    lemma_is_allow_plugins();
    reveal(path_effect);
    reveal(switch_effect);
    reveal(choice_effect);
    reveal(list_effect);
}

proof fn lemma_plain_switches(c: ConfigView, source: SourceView, b: bool)
    ensures
        merged_value(c, "discard-changes"@, JsonView::Bool(b), source).discard_changes == (if b {
            DiscardChanges::True
        } else {
            DiscardChanges::False
        }),
        merged_value(c, "platform-check"@, JsonView::Bool(b), source).platform_check == (if b {
            PlatformCheck::True
        } else {
            PlatformCheck::False
        }),
{
    lemma_is_discard_changes();
    lemma_is_platform_check();
    reveal(path_effect);
    reveal(switch_effect);
    reveal(choice_effect);
    reveal(list_effect);
}

/// A choice can be made with a plain switch too, and one switch lets all plugins run or none.
pub proof fn law_choices_can_be_switches(c: ConfigView, source: SourceView, b: bool)
    ensures
        merged_value(c, "allow-plugins"@, JsonView::Bool(b), source).allow_plugins
            == PluginsView::Bool(b),
        merged_value(c, "discard-changes"@, JsonView::Bool(b), source).discard_changes == (if b {
            DiscardChanges::True
        } else {
            DiscardChanges::False
        }),
        merged_value(c, "platform-check"@, JsonView::Bool(b), source).platform_check == (if b {
            PlatformCheck::True
        } else {
            PlatformCheck::False
        }),
{
    lemma_allow_plugins_takes_effect(c, source, b);
    lemma_plain_switches(c, source, b);
}

/// A file that lets plugins run one by one lets run those that it names, each as it says.
pub proof fn law_plugins_are_let_run_one_by_one(c: ConfigView, source: SourceView, o: Entries)
    requires
        forall|i: int| 0 <= i < o.len() ==> (#[trigger] o[i]).1 is Bool,
    ensures
        merged_value(c, "allow-plugins"@, JsonView::Object(o), source).allow_plugins
            matches PluginsView::List(l) && l.len() == o.len() && forall|i: int|
            0 <= i < o.len() ==> (#[trigger] l[i]).0 == o[i].0 && l[i].1 == (o[i].1
                == JsonView::Bool(true)),
{
    lemma_is_allow_plugins();
    reveal(path_effect);
    reveal(switch_effect);
    reveal(choice_effect);
    reveal(list_effect);
}

proof fn lemma_words()
    ensures
        "auto"@ != "source"@ && "auto"@ != "dist"@ && "source"@ != "dist"@,
        "true"@ != "false"@ && "true"@ != "prompt"@ && "false"@ != "prompt"@,
        "true"@ != "stash"@ && "false"@ != "stash"@,
        "php-only"@ != "true"@ && "php-only"@ != "false"@,
{
    reveal_strlit("auto");
    reveal_strlit("source");
    reveal_strlit("dist");
    reveal_strlit("true");
    reveal_strlit("false");
    reveal_strlit("prompt");
    reveal_strlit("stash");
    reveal_strlit("php-only");
    assert("auto"@.len() == 4 && "source"@.len() == 6 && "dist"@.len() == 4);
    assert("true"@.len() == 4 && "false"@.len() == 5 && "prompt"@.len() == 6);
    assert("stash"@.len() == 5 && "php-only"@.len() == 8);
    assert("auto"@[0] != "dist"@[0]);
    assert("false"@[0] != "stash"@[0]);
}

/// Each choice has its word, whatever the case of the letters, and no other word stands for one.
pub proof fn law_choices_have_their_words(t: Seq<char>)
    ensures
        PreferredInstall::named(t) == Some(PreferredInstall::Auto) <==> lowercase(t) == "auto"@,
        PreferredInstall::named(t) == Some(PreferredInstall::Source) <==> lowercase(t) == "source"@,
        PreferredInstall::named(t) == Some(PreferredInstall::Dist) <==> lowercase(t) == "dist"@,
        StoreAuths::named(t) == Some(StoreAuths::True) <==> lowercase(t) == "true"@,
        StoreAuths::named(t) == Some(StoreAuths::False) <==> lowercase(t) == "false"@,
        StoreAuths::named(t) == Some(StoreAuths::Prompt) <==> lowercase(t) == "prompt"@,
        DiscardChanges::named(t) == Some(DiscardChanges::True) <==> lowercase(t) == "true"@,
        DiscardChanges::named(t) == Some(DiscardChanges::False) <==> lowercase(t) == "false"@,
        DiscardChanges::named(t) == Some(DiscardChanges::Stash) <==> lowercase(t) == "stash"@,
        PlatformCheck::named(t) == Some(PlatformCheck::PhpOnly) <==> lowercase(t) == "php-only"@,
        PlatformCheck::named(t) == Some(PlatformCheck::True) <==> lowercase(t) == "true"@,
        PlatformCheck::named(t) == Some(PlatformCheck::False) <==> lowercase(t) == "false"@,
{
    lemma_words();
}

proof fn lemma_texts(items: Seq<JsonView>, n: int, t: Seq<char>)
    requires
        0 <= n <= items.len(),
    ensures
        texts_among(items, n).contains(t) <==> exists|i: int|
            0 <= i < n && #[trigger] items[i] == JsonView::Text(t),
    decreases n,
{
    if n > 0 {
        lemma_texts(items, n - 1, t);
        if let JsonView::Text(x) = items[n - 1] {
            lemma_one_more(texts_among(items, n - 1), x, t);
        }
    }
}

proof fn lemma_new_texts(s: Seq<Seq<char>>, more: Seq<Seq<char>>, n: int, t: Seq<char>)
    requires
        0 <= n <= more.len(),
    ensures
        with_new_texts(s, more, n).contains(t) <==> s.contains(t) || exists|i: int|
            0 <= i < n && #[trigger] more[i] == t,
    decreases n,
{
    if n > 0 {
        lemma_new_texts(s, more, n - 1, t);
        lemma_one_more(with_new_texts(s, more, n - 1), more[n - 1], t);
    }
}

proof fn lemma_lists(c: ConfigView, source: SourceView, a: Seq<JsonView>)
    ensures
        ({
            let more = texts_among(a, a.len() as int);
            let list = JsonView::Array(a);
            &&& merged_value(c, "github-protocols"@, list, source).github_protocols == more
            &&& merged_value(c, "github-domains"@, list, source).github_domains == with_new_texts(
                c.github_domains,
                more,
                more.len() as int,
            )
            &&& merged_value(c, "gitlab-domains"@, list, source).gitlab_domains == with_new_texts(
                c.gitlab_domains,
                more,
                more.len() as int,
            )
        }),
{
    lemma_is_github_protocols();
    lemma_is_github_domains();
    lemma_is_gitlab_domains();
    reveal(path_effect);
    reveal(switch_effect);
    reveal(choice_effect);
    reveal(list_effect);
}

/// The protocols that a file lists take the place of those there were; the domains that it lists
/// are added to those there were, and no others are.
pub proof fn law_lists_are_as_set(
    c: ConfigView,
    source: SourceView,
    a: Seq<JsonView>,
    t: Seq<char>,
)
    ensures
        merged_value(c, "github-protocols"@, JsonView::Array(a), source).github_protocols.contains(
            t,
        ) <==> a.contains(JsonView::Text(t)),
        merged_value(c, "github-domains"@, JsonView::Array(a), source).github_domains.contains(t)
            <==> c.github_domains.contains(t) || a.contains(JsonView::Text(t)),
        merged_value(c, "gitlab-domains"@, JsonView::Array(a), source).gitlab_domains.contains(t)
            <==> c.gitlab_domains.contains(t) || a.contains(JsonView::Text(t)),
{
    let more = texts_among(a, a.len() as int);
    lemma_lists(c, source, a);
    lemma_texts(a, a.len() as int, t);
    lemma_new_texts(c.github_domains, more, more.len() as int, t);
    lemma_new_texts(c.gitlab_domains, more, more.len() as int, t);
    if a.contains(JsonView::Text(t)) {
        let i = choose|i: int| 0 <= i < a.len() && a[i] == JsonView::Text(t);
        assert(a[i] == JsonView::Text(t));
    }
    if more.contains(t) {
        let i = choose|i: int| 0 <= i < more.len() && more[i] == t;
        assert(more[i] == t);
    }
}

proof fn lemma_tokens(s: Pairs, o: Entries, n: int, k: int)
    requires
        0 <= k < n <= o.len(),
        o[k].1 is Text,
        forall|j: int| k < j < n ==> (#[trigger] o[j]).0 != o[k].0,
    ensures
        has_link(with_tokens(s, o, n), o[k].0),
        constraint_on(with_tokens(s, o, n), o[k].0) == o[k].1->Text_0,
    decreases n,
{
    if k < n - 1 {
        lemma_tokens(s, o, n - 1, k);
        if let JsonView::Text(t) = o[n - 1].1 {
            assert(o[n - 1].0 != o[k].0);
            lemma_with_link(with_tokens(s, o, n - 1), o[n - 1].0, t, o[k].0);
        }
    } else {
        lemma_with_link(with_tokens(s, o, n - 1), o[k].0, o[k].1->Text_0, o[k].0);
    }
}

proof fn lemma_platform(s: Entries, o: Entries, n: int, name: Seq<char>)
    requires
        0 <= n <= o.len(),
    ensures
        forall|k: int|
            0 <= k < n && (#[trigger] o[k]).0 == name && (o[k].1 is Text || o[k].1
                == JsonView::Bool(false)) && (forall|j: int|
                k < j < n ==> (#[trigger] o[j]).0 != name) ==> value_of(
                with_platform(s, o, n),
                name,
            ) == Some(o[k].1),
        (forall|k: int| 0 <= k < n ==> (#[trigger] o[k]).0 != name) ==> value_of(
            with_platform(s, o, n),
            name,
        ) == value_of(s, name),
    decreases n,
{
    if n > 0 {
        lemma_platform(s, o, n - 1, name);
        lemma_with_entry(with_platform(s, o, n - 1), o[n - 1].0, o[n - 1].1, name);
    }
}

proof fn lemma_maps(c: ConfigView, source: SourceView, o: Entries)
    ensures
        ({
            let v = JsonView::Object(o);
            let n = o.len() as int;
            &&& merged_value(c, "platform"@, v, source).platform == with_platform(c.platform, o, n)
            &&& merged_value(c, "github-oauth"@, v, source).github_oauth == with_tokens(
                c.github_oauth,
                o,
                n,
            )
            &&& merged_value(c, "gitlab-oauth"@, v, source).gitlab_oauth == with_tokens(
                c.gitlab_oauth,
                o,
                n,
            )
        }),
{
    lemma_is_platform();
    lemma_is_github_oauth();
    lemma_is_gitlab_oauth();
    reveal(path_effect);
    reveal(switch_effect);
    reveal(choice_effect);
    reveal(list_effect);
}

/// Every platform package that a file pins or disables is pinned or disabled, and what it does not
/// name stays; every token that it sets is in force.
pub proof fn law_platform_and_tokens_are_as_set(
    c: ConfigView,
    source: SourceView,
    o: Entries,
    k: int,
    other: Seq<char>,
)
    requires
        0 <= k < o.len(),
        forall|j: int| k < j < o.len() ==> (#[trigger] o[j]).0 != o[k].0,
    ensures
        o[k].1 is Text || o[k].1 == JsonView::Bool(false) ==> value_of(
            merged_value(c, "platform"@, JsonView::Object(o), source).platform,
            o[k].0,
        ) == Some(o[k].1),
        (forall|j: int| 0 <= j < o.len() ==> (#[trigger] o[j]).0 != other) ==> value_of(
            merged_value(c, "platform"@, JsonView::Object(o), source).platform,
            other,
        ) == value_of(c.platform, other),
        o[k].1 is Text ==> constraint_on(
            merged_value(c, "github-oauth"@, JsonView::Object(o), source).github_oauth,
            o[k].0,
        ) == o[k].1->Text_0,
        o[k].1 is Text ==> constraint_on(
            merged_value(c, "gitlab-oauth"@, JsonView::Object(o), source).gitlab_oauth,
            o[k].0,
        ) == o[k].1->Text_0,
{
    lemma_maps(c, source, o);
    lemma_platform(c.platform, o, o.len() as int, o[k].0);
    lemma_platform(c.platform, o, o.len() as int, other);
    if o[k].1 is Text {
        lemma_tokens(c.github_oauth, o, o.len() as int, k);
        lemma_tokens(c.gitlab_oauth, o, o.len() as int, k);
    }
}

/// What the environment does not set stays, and a word that it sets for local changes is in force.
pub proof fn law_environment_leaves_the_rest(c: ConfigView, e: EnvironmentOverrides)
    ensures
        e.process_timeout is None ==> overridden(c, e).process_timeout == c.process_timeout,
        e.cache_dir is None ==> overridden(c, e).cache_dir == c.cache_dir,
        e.vendor_dir is None ==> overridden(c, e).vendor_dir == c.vendor_dir,
        e.bin_dir is None ==> overridden(c, e).bin_dir == c.bin_dir,
        e.cache_read_only is None ==> overridden(c, e).cache_read_only == c.cache_read_only,
        e.htaccess_protect is None ==> overridden(c, e).htaccess_protect == c.htaccess_protect,
        e.discard_changes is None ==> overridden(c, e).discard_changes == c.discard_changes,
        e.discard_changes matches Some(t) ==> (DiscardChanges::named(t@) matches Some(d)
            ==> overridden(c, e).discard_changes == d),
        overridden(c, e).preferred_install == c.preferred_install,
        overridden(c, e).platform == c.platform,
        overridden(c, e).allow_plugins == c.allow_plugins,
{
}

/// A directory that is configured stays; one that is not gets its place in the directory of the
/// user. The directory for binaries is inside the vendor directory where it says so.
pub proof fn law_directories_are_filled_in(c: ConfigView, home: Seq<char>, cache: Seq<char>)
    ensures
        ({
            let d = completed(c, home, cache);
            let kept = if c.cache_dir is Some {
                c.cache_dir->0
            } else {
                cache
            };
            &&& d.home_dir == Some(if c.home_dir is Some {
                c.home_dir->0
            } else {
                home
            })
            &&& d.cache_dir == Some(kept)
            &&& d.data_dir == Some(if c.data_dir is Some {
                c.data_dir->0
            } else if c.home_dir is Some {
                c.home_dir->0
            } else {
                home
            })
            &&& d.cache_files_dir == Some(if c.cache_files_dir is Some {
                c.cache_files_dir->0
            } else {
                joined_path(kept, "files"@)
            })
            &&& d.cache_repo_dir == Some(if c.cache_repo_dir is Some {
                c.cache_repo_dir->0
            } else {
                joined_path(kept, "repo"@)
            })
            &&& d.cache_vcs_dir == Some(if c.cache_vcs_dir is Some {
                c.cache_vcs_dir->0
            } else {
                joined_path(kept, "vcs"@)
            })
            &&& d.bin_dir == replaced(c.bin_dir, "{$vendor-dir}"@, c.vendor_dir)
            &&& d.vendor_dir == c.vendor_dir
        }),
{
}

} // verus!
