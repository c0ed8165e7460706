//! What holds of the configuration: whose setting is in force.
use vstd::prelude::*;

use crate::config::settings::{
    choice_effect, effect, list_effect, merged_value, noted, overridden, path_effect, switch_effect,
    with_new_texts, ConfigView, EnvironmentOverrides, SourceView,
};
use crate::json::JsonView;

verus! {

/// What the environment sets is in force, whatever the files say.
pub proof fn law_environment_comes_last(c: ConfigView, e: EnvironmentOverrides)
    ensures
        e.vendor_dir matches Some(t) ==> overridden(c, e).vendor_dir == t@,
        e.cache_dir matches Some(t) ==> overridden(c, e).cache_dir == Some(t@),
        e.bin_dir matches Some(t) ==> overridden(c, e).bin_dir == t@,
        e.process_timeout matches Some(n) ==> overridden(c, e).process_timeout == n,
        e.cache_read_only matches Some(b) ==> overridden(c, e).cache_read_only == b,
        e.htaccess_protect matches Some(b) ==> overridden(c, e).htaccess_protect == b,
        e.vendor_dir is None ==> overridden(c, e).vendor_dir == c.vendor_dir,
{
}

/// The setting adds to what was there instead of taking its place.
pub open spec fn adds(key: Seq<char>) -> bool {
    key == "github-domains"@ || key == "gitlab-domains"@ || key == "platform"@ || key
        == "github-oauth"@ || key == "gitlab-oauth"@
}

/// The settings are the same, wherever they come from.
#[verifier::opaque]
pub open spec fn same_settings(a: ConfigView, b: ConfigView) -> bool {
    &&& a.vendor_dir == b.vendor_dir
    &&& a.bin_dir == b.bin_dir
    &&& a.cache_dir == b.cache_dir
    &&& a.data_dir == b.data_dir
    &&& a.home_dir == b.home_dir
    &&& a.cache_files_dir == b.cache_files_dir
    &&& a.cache_repo_dir == b.cache_repo_dir
    &&& a.cache_vcs_dir == b.cache_vcs_dir
    &&& a.cache_read_only == b.cache_read_only
    &&& a.process_timeout == b.process_timeout
    &&& a.use_include_path == b.use_include_path
    &&& a.preferred_install == b.preferred_install
    &&& a.store_auths == b.store_auths
    &&& a.notify_on_install == b.notify_on_install
    &&& a.discard_changes == b.discard_changes
    &&& a.optimize_autoloader == b.optimize_autoloader
    &&& a.sort_packages == b.sort_packages
    &&& a.classmap_authoritative == b.classmap_authoritative
    &&& a.apcu_autoloader == b.apcu_autoloader
    &&& a.lock == b.lock
    &&& a.platform_check == b.platform_check
    &&& a.allow_plugins == b.allow_plugins
    &&& a.secure_http == b.secure_http
    &&& a.disable_tls == b.disable_tls
    &&& a.github_protocols == b.github_protocols
    &&& a.github_domains == b.github_domains
    &&& a.gitlab_domains == b.gitlab_domains
    &&& a.github_oauth == b.github_oauth
    &&& a.gitlab_oauth == b.gitlab_oauth
    &&& a.platform == b.platform
    &&& a.htaccess_protect == b.htaccess_protect
    &&& a.base_dir == b.base_dir
}

/// With both files read, the settings are those of the project's file alone.
pub open spec fn is_replaced(c: ConfigView, key: Seq<char>, theirs: JsonView, ours: JsonView)
    -> bool {
    same_settings(
        merged_value(
            merged_value(c, key, theirs, SourceView::Global),
            key,
            ours,
            SourceView::Project,
        ),
        merged_value(c, key, ours, SourceView::Project),
    )
}

/// The number of a setting that takes the place of what was there, in the order above.
#[verifier::opaque]
spec fn slot(key: Seq<char>) -> int {
    if key == "vendor-dir"@ {
        0
    } else if key == "bin-dir"@ {
        1
    } else if key == "cache-dir"@ {
        2
    } else if key == "data-dir"@ {
        3
    } else if key == "process-timeout"@ {
        4
    } else if key == "use-include-path"@ {
        5
    } else if key == "notify-on-install"@ {
        6
    } else if key == "optimize-autoloader"@ {
        7
    } else if key == "sort-packages"@ {
        8
    } else if key == "classmap-authoritative"@ {
        9
    } else if key == "apcu-autoloader"@ {
        10
    } else if key == "secure-http"@ {
        11
    } else if key == "disable-tls"@ {
        12
    } else if key == "lock"@ {
        13
    } else if key == "preferred-install"@ {
        14
    } else if key == "store-auths"@ {
        15
    } else if key == "discard-changes"@ {
        16
    } else if key == "platform-check"@ {
        17
    } else if key == "allow-plugins"@ {
        18
    } else if key == "github-protocols"@ {
        19
    } else {
        20
    }
}

/// The settings are the same but for the one with a number.
#[verifier::opaque]
spec fn same_but(a: ConfigView, b: ConfigView, k: int) -> bool {
    &&& (k == 0 || a.vendor_dir == b.vendor_dir)
    &&& (k == 1 || a.bin_dir == b.bin_dir)
    &&& (k == 2 || a.cache_dir == b.cache_dir)
    &&& (k == 3 || a.data_dir == b.data_dir)
    &&& a.home_dir == b.home_dir
    &&& a.cache_files_dir == b.cache_files_dir
    &&& a.cache_repo_dir == b.cache_repo_dir
    &&& a.cache_vcs_dir == b.cache_vcs_dir
    &&& a.cache_read_only == b.cache_read_only
    &&& (k == 4 || a.process_timeout == b.process_timeout)
    &&& (k == 5 || a.use_include_path == b.use_include_path)
    &&& (k == 14 || a.preferred_install == b.preferred_install)
    &&& (k == 15 || a.store_auths == b.store_auths)
    &&& (k == 6 || a.notify_on_install == b.notify_on_install)
    &&& (k == 16 || a.discard_changes == b.discard_changes)
    &&& (k == 7 || a.optimize_autoloader == b.optimize_autoloader)
    &&& (k == 8 || a.sort_packages == b.sort_packages)
    &&& (k == 9 || a.classmap_authoritative == b.classmap_authoritative)
    &&& (k == 10 || a.apcu_autoloader == b.apcu_autoloader)
    &&& (k == 13 || a.lock == b.lock)
    &&& (k == 17 || a.platform_check == b.platform_check)
    &&& (k == 18 || a.allow_plugins == b.allow_plugins)
    &&& (k == 11 || a.secure_http == b.secure_http)
    &&& (k == 12 || a.disable_tls == b.disable_tls)
    &&& (k == 19 || a.github_protocols == b.github_protocols)
    &&& a.github_domains == b.github_domains
    &&& a.gitlab_domains == b.gitlab_domains
    &&& a.github_oauth == b.github_oauth
    &&& a.gitlab_oauth == b.gitlab_oauth
    &&& a.platform == b.platform
    &&& a.htaccess_protect == b.htaccess_protect
    &&& a.base_dir == b.base_dir
}

proof fn lemma_path_known(c: ConfigView, d: ConfigView, key: Seq<char>, v: JsonView, w: JsonView)
    ensures
        (path_effect(c, key, v) is Unknown) == (path_effect(d, key, w) is Unknown),
{
    reveal(path_effect);
}

proof fn lemma_switch_known(c: ConfigView, d: ConfigView, key: Seq<char>, v: JsonView, w: JsonView)
    ensures
        (switch_effect(c, key, v) is Unknown) == (switch_effect(d, key, w) is Unknown),
{
    reveal(switch_effect);
}

proof fn lemma_choice_known(c: ConfigView, d: ConfigView, key: Seq<char>, v: JsonView, w: JsonView)
    ensures
        (choice_effect(c, key, v) is Unknown) == (choice_effect(d, key, w) is Unknown),
{
    reveal(choice_effect);
}

proof fn lemma_list_known(c: ConfigView, d: ConfigView, key: Seq<char>, v: JsonView, w: JsonView)
    ensures
        (list_effect(c, key, v) is Unknown) == (list_effect(d, key, w) is Unknown),
{
    reveal(list_effect);
}

#[verifier::spinoff_prover]
proof fn lemma_path_changes_one(c: ConfigView, key: Seq<char>, v: JsonView)
    requires
        path_effect(c, key, v) is Applied,
        !adds(key),
    ensures
        same_but(c, path_effect(c, key, v)->Applied_0, slot(key)),
{
    reveal(same_but);
    reveal(slot);
    reveal(path_effect);
    if key == "vendor-dir"@ {
        assert(same_but(c, path_effect(c, key, v)->Applied_0, slot(key)));
    } else if key == "bin-dir"@ {
        assert(same_but(c, path_effect(c, key, v)->Applied_0, slot(key)));
    } else if key == "cache-dir"@ {
        assert(same_but(c, path_effect(c, key, v)->Applied_0, slot(key)));
    } else if key == "data-dir"@ {
        assert(same_but(c, path_effect(c, key, v)->Applied_0, slot(key)));
    } else if key == "process-timeout"@ {
        assert(same_but(c, path_effect(c, key, v)->Applied_0, slot(key)));
    }
}

#[verifier::spinoff_prover]
proof fn lemma_path_sets_the_same(c: ConfigView, g: ConfigView, key: Seq<char>, v: JsonView)
    requires
        path_effect(c, key, v) is Applied,
        !adds(key),
    ensures
        path_effect(g, key, v) is Applied,
        agree_at(
            path_effect(c, key, v)->Applied_0,
            path_effect(g, key, v)->Applied_0,
            slot(key),
        ),
{
    reveal(slot);
    reveal(agree_at);
    reveal(path_effect);
    if key == "vendor-dir"@ {
        assert(slot(key) == 0);
    } else if key == "bin-dir"@ {
        assert(slot(key) == 1);
    } else if key == "cache-dir"@ {
        assert(slot(key) == 2);
    } else if key == "data-dir"@ {
        assert(slot(key) == 3);
    } else if key == "process-timeout"@ {
        assert(slot(key) == 4);
    }
}

#[verifier::spinoff_prover]
proof fn lemma_switch_changes_one(c: ConfigView, key: Seq<char>, v: JsonView)
    requires
        path_effect(c, key, v) is Unknown,
        switch_effect(c, key, v) is Applied,
        !adds(key),
    ensures
        same_but(c, switch_effect(c, key, v)->Applied_0, slot(key)),
{
    reveal(same_but);
    reveal(slot);
    reveal(path_effect);
    reveal(switch_effect);
    if key == "use-include-path"@ {
        assert(same_but(c, switch_effect(c, key, v)->Applied_0, slot(key)));
    } else if key == "notify-on-install"@ {
        assert(same_but(c, switch_effect(c, key, v)->Applied_0, slot(key)));
    } else if key == "optimize-autoloader"@ {
        assert(same_but(c, switch_effect(c, key, v)->Applied_0, slot(key)));
    } else if key == "sort-packages"@ {
        assert(same_but(c, switch_effect(c, key, v)->Applied_0, slot(key)));
    } else if key == "classmap-authoritative"@ {
        assert(same_but(c, switch_effect(c, key, v)->Applied_0, slot(key)));
    } else if key == "apcu-autoloader"@ {
        assert(same_but(c, switch_effect(c, key, v)->Applied_0, slot(key)));
    } else if key == "secure-http"@ {
        assert(same_but(c, switch_effect(c, key, v)->Applied_0, slot(key)));
    } else if key == "disable-tls"@ {
        assert(same_but(c, switch_effect(c, key, v)->Applied_0, slot(key)));
    } else if key == "lock"@ {
        assert(same_but(c, switch_effect(c, key, v)->Applied_0, slot(key)));
    }
}

#[verifier::spinoff_prover]
proof fn lemma_switch_sets_the_same(c: ConfigView, g: ConfigView, key: Seq<char>, v: JsonView)
    requires
        path_effect(c, key, v) is Unknown,
        switch_effect(c, key, v) is Applied,
        !adds(key),
    ensures
        switch_effect(g, key, v) is Applied,
        agree_at(
            switch_effect(c, key, v)->Applied_0,
            switch_effect(g, key, v)->Applied_0,
            slot(key),
        ),
{
    reveal(slot);
    reveal(agree_at);
    reveal(path_effect);
    reveal(switch_effect);
    if key == "use-include-path"@ {
        assert(slot(key) == 5);
    } else if key == "notify-on-install"@ {
        assert(slot(key) == 6);
    } else if key == "optimize-autoloader"@ {
        assert(slot(key) == 7);
    } else if key == "sort-packages"@ {
        assert(slot(key) == 8);
    } else if key == "classmap-authoritative"@ {
        assert(slot(key) == 9);
    } else if key == "apcu-autoloader"@ {
        assert(slot(key) == 10);
    } else if key == "secure-http"@ {
        assert(slot(key) == 11);
    } else if key == "disable-tls"@ {
        assert(slot(key) == 12);
    } else if key == "lock"@ {
        assert(slot(key) == 13);
    }
}

#[verifier::spinoff_prover]
proof fn lemma_choice_changes_one(c: ConfigView, key: Seq<char>, v: JsonView)
    requires
        path_effect(c, key, v) is Unknown,
        switch_effect(c, key, v) is Unknown,
        choice_effect(c, key, v) is Applied,
        !adds(key),
    ensures
        same_but(c, choice_effect(c, key, v)->Applied_0, slot(key)),
{
    reveal(same_but);
    reveal(slot);
    reveal(path_effect);
    reveal(switch_effect);
    reveal(choice_effect);
    if key == "preferred-install"@ {
        assert(same_but(c, choice_effect(c, key, v)->Applied_0, slot(key)));
    } else if key == "store-auths"@ {
        assert(same_but(c, choice_effect(c, key, v)->Applied_0, slot(key)));
    } else if key == "discard-changes"@ {
        assert(same_but(c, choice_effect(c, key, v)->Applied_0, slot(key)));
    } else if key == "platform-check"@ {
        assert(same_but(c, choice_effect(c, key, v)->Applied_0, slot(key)));
    } else if key == "allow-plugins"@ {
        assert(same_but(c, choice_effect(c, key, v)->Applied_0, slot(key)));
    }
}

#[verifier::spinoff_prover]
proof fn lemma_choice_sets_the_same(c: ConfigView, g: ConfigView, key: Seq<char>, v: JsonView)
    requires
        path_effect(c, key, v) is Unknown,
        switch_effect(c, key, v) is Unknown,
        choice_effect(c, key, v) is Applied,
        !adds(key),
    ensures
        choice_effect(g, key, v) is Applied,
        agree_at(
            choice_effect(c, key, v)->Applied_0,
            choice_effect(g, key, v)->Applied_0,
            slot(key),
        ),
{
    reveal(slot);
    reveal(agree_at);
    reveal(path_effect);
    reveal(switch_effect);
    reveal(choice_effect);
    if key == "preferred-install"@ {
        assert(slot(key) == 14);
    } else if key == "store-auths"@ {
        assert(slot(key) == 15);
    } else if key == "discard-changes"@ {
        assert(slot(key) == 16);
    } else if key == "platform-check"@ {
        assert(slot(key) == 17);
    } else if key == "allow-plugins"@ {
        assert(slot(key) == 18);
    }
}

#[verifier::spinoff_prover]
proof fn lemma_list_changes_one(c: ConfigView, key: Seq<char>, v: JsonView)
    requires
        path_effect(c, key, v) is Unknown,
        switch_effect(c, key, v) is Unknown,
        choice_effect(c, key, v) is Unknown,
        list_effect(c, key, v) is Applied,
        !adds(key),
    ensures
        same_but(c, list_effect(c, key, v)->Applied_0, slot(key)),
{
    reveal(same_but);
    reveal(slot);
    reveal(path_effect);
    reveal(switch_effect);
    reveal(choice_effect);
    reveal(list_effect);
    if key == "github-protocols"@ {
        assert(same_but(c, list_effect(c, key, v)->Applied_0, slot(key)));
    }
}

#[verifier::spinoff_prover]
proof fn lemma_list_sets_the_same(c: ConfigView, g: ConfigView, key: Seq<char>, v: JsonView)
    requires
        path_effect(c, key, v) is Unknown,
        switch_effect(c, key, v) is Unknown,
        choice_effect(c, key, v) is Unknown,
        list_effect(c, key, v) is Applied,
        !adds(key),
    ensures
        list_effect(g, key, v) is Applied,
        agree_at(
            list_effect(c, key, v)->Applied_0,
            list_effect(g, key, v)->Applied_0,
            slot(key),
        ),
{
    reveal(slot);
    reveal(agree_at);
    reveal(path_effect);
    reveal(switch_effect);
    reveal(choice_effect);
    reveal(list_effect);
    if key == "github-protocols"@ {
        assert(slot(key) == 19);
    }
}

/// The setting with a number is the same.
#[verifier::opaque]
spec fn agree_at(a: ConfigView, b: ConfigView, k: int) -> bool {
    &&& (k == 0 ==> a.vendor_dir == b.vendor_dir)
    &&& (k == 1 ==> a.bin_dir == b.bin_dir)
    &&& (k == 2 ==> a.cache_dir == b.cache_dir)
    &&& (k == 3 ==> a.data_dir == b.data_dir)
    &&& (k == 4 ==> a.process_timeout == b.process_timeout)
    &&& (k == 5 ==> a.use_include_path == b.use_include_path)
    &&& (k == 6 ==> a.notify_on_install == b.notify_on_install)
    &&& (k == 7 ==> a.optimize_autoloader == b.optimize_autoloader)
    &&& (k == 8 ==> a.sort_packages == b.sort_packages)
    &&& (k == 9 ==> a.classmap_authoritative == b.classmap_authoritative)
    &&& (k == 10 ==> a.apcu_autoloader == b.apcu_autoloader)
    &&& (k == 11 ==> a.secure_http == b.secure_http)
    &&& (k == 12 ==> a.disable_tls == b.disable_tls)
    &&& (k == 13 ==> a.lock == b.lock)
    &&& (k == 14 ==> a.preferred_install == b.preferred_install)
    &&& (k == 15 ==> a.store_auths == b.store_auths)
    &&& (k == 16 ==> a.discard_changes == b.discard_changes)
    &&& (k == 17 ==> a.platform_check == b.platform_check)
    &&& (k == 18 ==> a.allow_plugins == b.allow_plugins)
    &&& (k == 19 ==> a.github_protocols == b.github_protocols)
    &&& k != 20
}

#[verifier::spinoff_prover]
proof fn lemma_all_the_same(c: ConfigView, g: ConfigView, x: ConfigView, y: ConfigView, k: int)
    requires
        same_but(c, g, k),
        same_but(c, x, k),
        same_but(g, y, k),
        agree_at(x, y, k),
    ensures
        same_settings(y, x),
{
    reveal(same_but);
    reveal(agree_at);
    reveal(same_settings);
}

proof fn lemma_noted_but_one(c: ConfigView, d: ConfigView, key: Seq<char>, source: SourceView, k: int)
    requires
        same_but(c, d, k),
    ensures
        same_but(c, noted(d, key, source), k),
{
    reveal(same_but);
}

proof fn lemma_noted_settings(c: ConfigView, d: ConfigView, key: Seq<char>, source: SourceView)
    requires
        same_settings(c, d),
    ensures
        same_settings(noted(c, key, source), noted(d, key, source)),
{
    reveal(same_settings);
}

proof fn lemma_own_settings(c: ConfigView)
    ensures
        same_settings(c, c),
{
    reveal(same_settings);
}

proof fn lemma_noted_changes_no_setting(
    c: ConfigView,
    d: ConfigView,
    key: Seq<char>,
    source: SourceView,
    k: int,
)
    ensures
        same_but(c, d, k) ==> same_but(c, noted(d, key, source), k),
        same_settings(c, d) ==> same_settings(noted(c, key, source), noted(d, key, source)),
        same_settings(c, c),
{
    if same_but(c, d, k) {
        lemma_noted_but_one(c, d, key, source, k);
    }
    if same_settings(c, d) {
        lemma_noted_settings(c, d, key, source);
    }
    lemma_own_settings(c);
}

/// What the project sets is in force as if the global file had not set it, for every setting
/// that takes the place of what was there.
pub proof fn law_project_comes_after_global(
    c: ConfigView,
    key: Seq<char>,
    theirs: JsonView,
    ours: JsonView,
)
    requires
        !adds(key),
        effect(c, key, ours) is Applied,
    ensures
        is_replaced(c, key, theirs, ours),
{
    let g = merged_value(c, key, theirs, SourceView::Global);
    lemma_path_known(c, c, key, theirs, ours);
    lemma_switch_known(c, c, key, theirs, ours);
    lemma_choice_known(c, c, key, theirs, ours);
    lemma_list_known(c, c, key, theirs, ours);
    lemma_path_known(c, g, key, ours, ours);
    lemma_switch_known(c, g, key, ours, ours);
    lemma_choice_known(c, g, key, ours, ours);
    let now = merged_value(c, key, ours, SourceView::Project);
    lemma_noted_changes_no_setting(now, now, key, SourceView::Project, 0);
    if effect(c, key, theirs) is Applied {
        let d = effect(c, key, theirs)->Applied_0;
        let x = effect(c, key, ours)->Applied_0;
        lemma_noted_changes_no_setting(c, d, key, SourceView::Global, slot(key));
        if !(path_effect(c, key, ours) is Unknown) {
            lemma_path_changes_one(c, key, theirs);
            lemma_path_sets_the_same(c, g, key, ours);
            lemma_path_changes_one(c, key, ours);
            lemma_path_changes_one(g, key, ours);
        } else if !(switch_effect(c, key, ours) is Unknown) {
            lemma_switch_changes_one(c, key, theirs);
            lemma_switch_sets_the_same(c, g, key, ours);
            lemma_switch_changes_one(c, key, ours);
            lemma_switch_changes_one(g, key, ours);
        } else if !(choice_effect(c, key, ours) is Unknown) {
            lemma_choice_changes_one(c, key, theirs);
            lemma_choice_sets_the_same(c, g, key, ours);
            lemma_choice_changes_one(c, key, ours);
            lemma_choice_changes_one(g, key, ours);
        } else {
            lemma_list_changes_one(c, key, theirs);
            lemma_list_sets_the_same(c, g, key, ours);
            lemma_list_changes_one(c, key, ours);
            lemma_list_changes_one(g, key, ours);
        }
        let y = effect(g, key, ours)->Applied_0;
        lemma_all_the_same(c, g, x, y, slot(key));
        lemma_noted_changes_no_setting(y, x, key, SourceView::Project, 0);
    }
}

/// Domains of GitHub that were known stay known, whatever a file adds.
pub proof fn law_domains_only_grow(s: Seq<Seq<char>>, more: Seq<Seq<char>>, n: int)
    requires
        0 <= n <= more.len(),
    ensures
        s.len() <= with_new_texts(s, more, n).len(),
        with_new_texts(s, more, n).take(s.len() as int) == s,
        forall|i: int| 0 <= i < n ==> with_new_texts(s, more, n).contains(#[trigger] more[i]),
    decreases n,
{
    if n > 0 {
        law_domains_only_grow(s, more, n - 1);
        let t = with_new_texts(s, more, n - 1);
        let u = with_new_texts(s, more, n);
        assert(u.take(s.len() as int) =~= t.take(s.len() as int));
        assert forall|i: int| 0 <= i < n implies u.contains(#[trigger] more[i]) by {
            if i < n - 1 {
                let k = choose|k: int| 0 <= k < t.len() && t[k] == more[i];
                assert(u[k] == more[i]);
            } else if !t.contains(more[i]) {
                assert(u[t.len() as int] == more[i]);
            }
        }
    } else {
        assert(s.take(s.len() as int) =~= s);
    }
}

} // verus!
