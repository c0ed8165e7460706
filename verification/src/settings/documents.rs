//! The configuration in force: defaults, files, credentials and environment laid
//! over one another, and for each setting where it comes from.
use vstd::prelude::*;
use vstd::string::*;

use crate::json::{
    add_entry, at_path, copy, cut, empty_object, entries_view, find_key, items_view, keys_differ,
    lemma_array_view, lemma_items_push, lemma_key_at, lemma_object_view, merge_objects, merged, put,
    set_nested, text, value_of, with_entry, with_path, without_key, Entries, Json, JsonView, Number,
    NumberView,
};
use crate::paths::{is_absolute, join_path, joined_path};
use crate::settings::values::{pair_of_texts, text_pair};
use crate::text::{
    decimal, number, parse_i64, replace, replaced, str_equal, str_views, whole_number,
};

verus! {

// ---------------------------------------------------------------------------
// Defaults
// ---------------------------------------------------------------------------
/// The repository of all public packages.
pub open spec fn packagist() -> JsonView {
    text_pair("type"@, "composer"@, "url"@, "https://repo.packagist.org"@)
}

/// The default of every setting, given the home directory and the cache directory.
pub open spec fn default_settings(home: Seq<char>, cache: Seq<char>) -> Entries {
    Seq::<(Seq<char>, JsonView)>::empty()
        .push(("process-timeout"@, JsonView::Number(NumberView::Unsigned(300))))
        .push(("use-include-path"@, JsonView::Bool(false)))
        .push(("use-parent-dir"@, JsonView::Text("prompt"@)))
        .push(("preferred-install"@, JsonView::Text("dist"@)))
        .push(("audit"@, JsonView::Object(seq![("abandoned"@, JsonView::Text("fail"@))])))
        .push(("policy"@, JsonView::Bool(true)))
        .push(("notify-on-install"@, JsonView::Bool(true)))
        .push(("github-protocols"@, JsonView::Array(seq![JsonView::Text("https"@), JsonView::Text("ssh"@)])))
        .push(("gitlab-protocol"@, JsonView::Null))
        .push(("vendor-dir"@, JsonView::Text("vendor"@)))
        .push(("bin-dir"@, JsonView::Text("{$vendor-dir}/bin"@)))
        .push(("cache-dir"@, JsonView::Text(cache)))
        .push(("data-dir"@, JsonView::Text(home)))
        .push(("cache-files-dir"@, JsonView::Text("{$cache-dir}/files"@)))
        .push(("cache-repo-dir"@, JsonView::Text("{$cache-dir}/repo"@)))
        .push(("cache-vcs-dir"@, JsonView::Text("{$cache-dir}/vcs"@)))
        .push(("cache-ttl"@, JsonView::Number(NumberView::Unsigned(15552000))))
        .push(("cache-files-ttl"@, JsonView::Number(NumberView::Unsigned(15552000))))
        .push(("cache-files-maxsize"@, JsonView::Text("300MiB"@)))
        .push(("cache-read-only"@, JsonView::Bool(false)))
        .push(("bin-compat"@, JsonView::Text("auto"@)))
        .push(("discard-changes"@, JsonView::Bool(false)))
        .push(("autoloader-suffix"@, JsonView::Null))
        .push(("sort-packages"@, JsonView::Bool(false)))
        .push(("optimize-autoloader"@, JsonView::Bool(false)))
        .push(("classmap-authoritative"@, JsonView::Bool(false)))
        .push(("apcu-autoloader"@, JsonView::Bool(false)))
        .push(("prepend-autoloader"@, JsonView::Bool(true)))
        .push(("update-with-minimal-changes"@, JsonView::Bool(false)))
        .push(("github-domains"@, JsonView::Array(seq![JsonView::Text("github.com"@)])))
        .push(("bitbucket-expose-hostname"@, JsonView::Bool(true)))
        .push(("disable-tls"@, JsonView::Bool(false)))
        .push(("secure-http"@, JsonView::Bool(true)))
        .push(("cafile"@, JsonView::Null))
        .push(("capath"@, JsonView::Null))
        .push(("github-expose-hostname"@, JsonView::Bool(true)))
        .push(("gitlab-domains"@, JsonView::Array(seq![JsonView::Text("gitlab.com"@)])))
        .push(("store-auths"@, JsonView::Text("prompt"@)))
        .push(("archive-format"@, JsonView::Text("tar"@)))
        .push(("archive-dir"@, JsonView::Text("."@)))
        .push(("htaccess-protect"@, JsonView::Bool(true)))
        .push(("use-github-api"@, JsonView::Bool(true)))
        .push(("lock"@, JsonView::Bool(true)))
        .push(("platform-check"@, JsonView::Text("php-only"@)))
        .push(("bump-after-update"@, JsonView::Bool(false)))
        .push(("allow-missing-requirements"@, JsonView::Bool(false)))
        .push(("forgejo-domains"@, JsonView::Array(seq![JsonView::Text("codeberg.org"@)])))
        .push(("source-fallback"@, JsonView::Bool(false)))
        .push(("home"@, JsonView::Text(home)))
}

/// The default configuration for a home directory.
pub open spec fn defaults(home: Seq<char>) -> Entries {
    seq![
        ("repositories"@, JsonView::Object(seq![("packagist.org"@, packagist())])),
        ("config"@, JsonView::Object(default_settings(home, joined_path(home, "cache"@)))),
    ]
}

fn object1(key: &str, value: Json) -> (r: Json)
    ensures
        r@ == JsonView::Object(seq![(key@, value@)]),
{
    broadcast use lemma_object_view;

    let mut out: Vec<(String, Json)> = Vec::new();
    out.push((key.to_owned(), value));
    assert(entries_view(out@) =~= seq![(key@, value@)]);
    Json::Object(out)
}

fn text_list1(a: &str) -> (r: Json)
    ensures
        r@ == JsonView::Array(seq![JsonView::Text(a@)]),
{
    broadcast use lemma_array_view;

    let mut out: Vec<Json> = Vec::new();
    out.push(text(a));
    assert(items_view(out@) =~= seq![JsonView::Text(a@)]);
    Json::Array(out)
}

fn text_list2(a: &str, b: &str) -> (r: Json)
    ensures
        r@ == JsonView::Array(seq![JsonView::Text(a@), JsonView::Text(b@)]),
{
    broadcast use lemma_array_view;

    let mut out: Vec<Json> = Vec::new();
    out.push(text(a));
    out.push(text(b));
    assert(items_view(out@) =~= seq![JsonView::Text(a@), JsonView::Text(b@)]);
    Json::Array(out)
}

/// The default configuration for a home directory.
pub fn default_configuration(home: &str) -> (r: Vec<(String, Json)>)
    ensures
        entries_view(r@) == defaults(home@),
{
    broadcast use lemma_object_view;

    let cache_dir = join_path(home, "cache");
    let cache = cache_dir.as_str();
    let mut c: Vec<(String, Json)> = Vec::new();
    assert(entries_view(c@) =~= Seq::empty());
    add_entry(&mut c, "process-timeout", Json::Number(Number::Unsigned(300)));
    add_entry(&mut c, "use-include-path", Json::Bool(false));
    add_entry(&mut c, "use-parent-dir", text("prompt"));
    add_entry(&mut c, "preferred-install", text("dist"));
    add_entry(&mut c, "audit", object1("abandoned", text("fail")));
    add_entry(&mut c, "policy", Json::Bool(true));
    add_entry(&mut c, "notify-on-install", Json::Bool(true));
    add_entry(&mut c, "github-protocols", text_list2("https", "ssh"));
    add_entry(&mut c, "gitlab-protocol", Json::Null);
    add_entry(&mut c, "vendor-dir", text("vendor"));
    add_entry(&mut c, "bin-dir", text("{$vendor-dir}/bin"));
    add_entry(&mut c, "cache-dir", text(cache));
    add_entry(&mut c, "data-dir", text(home));
    add_entry(&mut c, "cache-files-dir", text("{$cache-dir}/files"));
    add_entry(&mut c, "cache-repo-dir", text("{$cache-dir}/repo"));
    add_entry(&mut c, "cache-vcs-dir", text("{$cache-dir}/vcs"));
    add_entry(&mut c, "cache-ttl", Json::Number(Number::Unsigned(15552000)));
    add_entry(&mut c, "cache-files-ttl", Json::Number(Number::Unsigned(15552000)));
    add_entry(&mut c, "cache-files-maxsize", text("300MiB"));
    add_entry(&mut c, "cache-read-only", Json::Bool(false));
    add_entry(&mut c, "bin-compat", text("auto"));
    add_entry(&mut c, "discard-changes", Json::Bool(false));
    add_entry(&mut c, "autoloader-suffix", Json::Null);
    add_entry(&mut c, "sort-packages", Json::Bool(false));
    add_entry(&mut c, "optimize-autoloader", Json::Bool(false));
    add_entry(&mut c, "classmap-authoritative", Json::Bool(false));
    add_entry(&mut c, "apcu-autoloader", Json::Bool(false));
    add_entry(&mut c, "prepend-autoloader", Json::Bool(true));
    add_entry(&mut c, "update-with-minimal-changes", Json::Bool(false));
    add_entry(&mut c, "github-domains", text_list1("github.com"));
    add_entry(&mut c, "bitbucket-expose-hostname", Json::Bool(true));
    add_entry(&mut c, "disable-tls", Json::Bool(false));
    add_entry(&mut c, "secure-http", Json::Bool(true));
    add_entry(&mut c, "cafile", Json::Null);
    add_entry(&mut c, "capath", Json::Null);
    add_entry(&mut c, "github-expose-hostname", Json::Bool(true));
    add_entry(&mut c, "gitlab-domains", text_list1("gitlab.com"));
    add_entry(&mut c, "store-auths", text("prompt"));
    add_entry(&mut c, "archive-format", text("tar"));
    add_entry(&mut c, "archive-dir", text("."));
    add_entry(&mut c, "htaccess-protect", Json::Bool(true));
    add_entry(&mut c, "use-github-api", Json::Bool(true));
    add_entry(&mut c, "lock", Json::Bool(true));
    add_entry(&mut c, "platform-check", text("php-only"));
    add_entry(&mut c, "bump-after-update", Json::Bool(false));
    add_entry(&mut c, "allow-missing-requirements", Json::Bool(false));
    add_entry(&mut c, "forgejo-domains", text_list1("codeberg.org"));
    add_entry(&mut c, "source-fallback", Json::Bool(false));
    add_entry(&mut c, "home", text(home));
    let mut out: Vec<(String, Json)> = Vec::new();
    assert(entries_view(out@) =~= Seq::empty());
    let public = pair_of_texts("type", "composer", "url", "https://repo.packagist.org");
    add_entry(&mut out, "repositories", object1("packagist.org", public));
    add_entry(&mut out, "config", Json::Object(c));
    assert(entries_view(out@) =~= defaults(home@));
    out
}


// ---------------------------------------------------------------------------
// Where values come from
// ---------------------------------------------------------------------------
/// The shape of a value with its origin in place of everything that is no object.
pub open spec fn origin_tree(value: JsonView, source: Seq<char>) -> JsonView
    decreases value,
{
    match value {
        JsonView::Object(o) => JsonView::Object(
            Seq::new(
                o.len(),
                |i: int|
                    if 0 <= i < o.len() {
                        (o[i].0, origin_tree(o[i].1, source))
                    } else {
                        (Seq::empty(), JsonView::Null)
                    },
            ),
        ),
        _ => JsonView::Text(source),
    }
}

/// The origins of the entries of an object.
pub open spec fn origins(o: Entries, source: Seq<char>) -> Entries {
    o.map_values(|e: (Seq<char>, JsonView)| (e.0, origin_tree(e.1, source)))
}

proof fn lemma_origin_tree(o: Entries, source: Seq<char>)
    ensures
        origin_tree(JsonView::Object(o), source) == JsonView::Object(origins(o, source)),
{
    assert(origin_tree(JsonView::Object(o), source)->Object_0 =~= origins(o, source));
}

/// The shape of a value with its origin in place of everything that is no object.
pub fn source_value_tree(value: &Json, source: &str) -> (r: Json)
    ensures
        r@ == origin_tree(value@, source@),
    decreases value,
{
    match value {
        Json::Object(entries) => {
            let out = source_tree(entries, source);
            proof {
                lemma_object_view(*entries);
                lemma_object_view(out);
                lemma_origin_tree(entries_view(entries@), source@);
            }
            Json::Object(out)
        },
        _ => text(source),
    }
}

/// The origins of the entries of an object.
pub fn source_tree(entries: &Vec<(String, Json)>, source: &str) -> (r: Vec<(String, Json)>)
    ensures
        entries_view(r@) == origins(entries_view(entries@), source@),
    decreases entries,
{
    let ghost o = entries_view(entries@);
    let mut out: Vec<(String, Json)> = Vec::new();
    let mut i: usize = 0;
    while i < entries.len()
        invariant
            i <= entries.len(),
            o == entries_view(entries@),
            entries_view(out@) == origins(o, source@).take(i as int),
        decreases entries.len() - i,
    {
        let one = source_value_tree(&entries[i].1, source);
        add_entry(&mut out, entries[i].0.as_str(), one);
        i += 1;
        assert(entries_view(out@) =~= origins(o, source@).take(i as int));
    }
    assert(entries_view(out@) =~= origins(o, source@));
    out
}

/// The origins `target` after a value from `source` was laid over.
pub open spec fn origins_merged(target: JsonView, incoming: JsonView, source: Seq<char>) -> JsonView
    decreases incoming,
{
    match incoming {
        JsonView::Object(b) => JsonView::Object(
            origin_entries(target.entries(), b, b.len() as int, source),
        ),
        _ => JsonView::Text(source),
    }
}

/// The origins `a` after the first `n` entries of `b` were laid over.
pub open spec fn origin_entries(a: Entries, b: Entries, n: int, source: Seq<char>) -> Entries
    decreases b, n,
{
    if n <= 0 || n > b.len() {
        a
    } else {
        let so_far = origin_entries(a, b, n - 1, source);
        let (key, value) = b[n - 1];
        let present = match value_of(so_far, key) {
            Some(t) => t,
            None => JsonView::Text(source),
        };
        with_entry(so_far, key, origins_merged(present, value, source))
    }
}

/// Lays the origins of a value from `source` over others.
pub fn merge_source_tree(target: &mut Json, incoming: &Json, source: &str)
    ensures
        final(target)@ == origins_merged(old(target)@, incoming@, source@),
    decreases incoming,
{
    broadcast use lemma_object_view;

    let ghost before = target@;
    match incoming {
        Json::Object(theirs) => {
            if !target.is_object() {
                *target = Json::Object(Vec::new());
                assert(entries_view(target->Object_0@) =~= Seq::empty());
            }
            let ghost a = before.entries();
            let ghost b = entries_view(theirs@);
            match target {
                Json::Object(mine) => {
                    let mut i: usize = 0;
                    while i < theirs.len()
                        invariant
                            i <= theirs.len(),
                            b == entries_view(theirs@),
                            decreases_to!(incoming => theirs),
                            entries_view(mine@) == origin_entries(a, b, i as int, source@),
                        decreases theirs.len() - i,
                    {
                        let ghost so_far = entries_view(mine@);
                        let at: usize = find_key(mine, theirs[i].0.as_str());
                        proof {
                            lemma_key_at(so_far, b[i as int].0);
                        }
                        if at < mine.len() {
                            merge_source_tree(&mut mine[at].1, &theirs[i].1, source);
                        } else {
                            let mut child = text(source);
                            merge_source_tree(&mut child, &theirs[i].1, source);
                            mine.push((theirs[i].0.clone(), child));
                        }
                        i += 1;
                        assert(entries_view(mine@) =~= origin_entries(a, b, i as int, source@));
                    }
                },
                _ => {},
            }
        },
        _ => {
            *target = text(source);
        },
    }
}

// ---------------------------------------------------------------------------
// Laying documents over one another
// ---------------------------------------------------------------------------
/// A configuration, and for each value where it comes from.
pub struct State {
    pub value: Entries,
    pub sources: Entries,
}

/// The configuration in force, and for each value where it comes from.
#[derive(Debug)]
pub struct MergedConfig {
    pub value: Vec<(String, Json)>,
    pub sources: Vec<(String, Json)>,
}

impl View for MergedConfig {
    type V = State;

    open spec fn view(&self) -> State {
        State { value: entries_view(self.value@), sources: entries_view(self.sources@) }
    }
}

/// What stands under a key, or an empty object.
pub open spec fn or_empty(o: Entries, key: Seq<char>) -> JsonView {
    match value_of(o, key) {
        Some(v) => v,
        None => empty_object(),
    }
}

/// A value laid over what stands under a key at the top.
pub open spec fn root_merged(
    s: State,
    key: Seq<char>,
    value: JsonView,
    source: Seq<char>,
) -> State {
    State {
        value: with_entry(s.value, key, merged(or_empty(s.value, key), value)),
        sources: with_entry(
            s.sources,
            key,
            origins_merged(or_empty(s.sources, key), value, source),
        ),
    }
}

/// The first `n` entries of a document, but for `config` and `repositories`, put in
/// place of what stood under their keys.
pub open spec fn root_replaced(s: State, o: Entries, n: int, source: Seq<char>) -> State
    decreases n,
{
    if n <= 0 || n > o.len() {
        s
    } else {
        let t = root_replaced(s, o, n - 1, source);
        let (key, value) = o[n - 1];
        if key == "config"@ || key == "repositories"@ {
            t
        } else {
            State {
                value: with_entry(t.value, key, value),
                sources: with_entry(t.sources, key, origin_tree(value, source)),
            }
        }
    }
}

/// A document laid over the configuration: its `config` and `repositories` are
/// merged key by key, everything else replaces what was there.
pub open spec fn document_merged(s: State, document: JsonView, source: Seq<char>) -> State {
    let with_config = match document.field("config"@) {
        Some(v) => root_merged(s, "config"@, v, source),
        None => s,
    };
    let with_repositories = match document.field("repositories"@) {
        Some(v) => root_merged(with_config, "repositories"@, v, source),
        None => with_config,
    };
    root_replaced(
        with_repositories,
        document.entries(),
        document.entries().len() as int,
        source,
    )
}

/// The first `n` entries of the credentials laid over those in the configuration.
pub open spec fn credentials_merged(config: Entries, o: Entries, n: int) -> Entries
    decreases n,
{
    if n <= 0 || n > o.len() {
        config
    } else {
        let t = credentials_merged(config, o, n - 1);
        with_entry(t, o[n - 1].0, merged(or_empty(t, o[n - 1].0), o[n - 1].1))
    }
}

/// The origins of the first `n` entries of the credentials.
pub open spec fn credential_origins(
    config: Entries,
    o: Entries,
    n: int,
    source: Seq<char>,
) -> Entries
    decreases n,
{
    if n <= 0 || n > o.len() {
        config
    } else {
        let t = credential_origins(config, o, n - 1, source);
        let present = match value_of(t, o[n - 1].0) {
            Some(v) => v,
            None => JsonView::Text(source),
        };
        with_entry(t, o[n - 1].0, origins_merged(present, o[n - 1].1, source))
    }
}

/// The credentials of a file laid over the configuration.
pub open spec fn auth_merged(s: State, auth: JsonView, source: Seq<char>) -> State {
    match auth {
        JsonView::Object(o) => {
            let config = or_empty(s.value, "config"@);
            let config_sources = or_empty(s.sources, "config"@);
            State {
                value: with_entry(
                    s.value,
                    "config"@,
                    if o.len() == 0 {
                        config
                    } else {
                        JsonView::Object(credentials_merged(config.entries(), o, o.len() as int))
                    },
                ),
                sources: with_entry(
                    s.sources,
                    "config"@,
                    if o.len() == 0 {
                        config_sources
                    } else {
                        JsonView::Object(
                            credential_origins(
                                config_sources.entries(),
                                o,
                                o.len() as int,
                                source,
                            ),
                        )
                    },
                ),
            }
        },
        _ => s,
    }
}

fn take_or_empty(o: &Vec<(String, Json)>, key: &str) -> (r: Json)
    ensures
        r@ == or_empty(entries_view(o@), key@),
{
    broadcast use lemma_object_view;

    let at: usize = find_key(o, key);
    if at < o.len() {
        assert(entries_view(o@)[at as int].1 == o@[at as int].1@);
        copy(&o[at].1)
    } else {
        let none: Vec<(String, Json)> = Vec::new();
        assert(entries_view(none@) =~= Seq::empty());
        Json::Object(none)
    }
}

/// Lays a value over what stands under a key at the top.
pub fn merge_at_root(target: &mut MergedConfig, key: &str, value: &Json, source: &str)
    ensures
        final(target)@ == root_merged(old(target)@, key@, value@, source@),
{
    let mut child = take_or_empty(&target.value, key);
    merge_objects(&mut child, value);
    put(&mut target.value, key, child);
    let mut origin = take_or_empty(&target.sources, key);
    merge_source_tree(&mut origin, value, source);
    put(&mut target.sources, key, origin);
}

/// Lays a document over the configuration.
pub fn merge_document(target: &mut MergedConfig, document: &Json, source: &str)
    ensures
        final(target)@ == document_merged(old(target)@, document@, source@),
{
    broadcast use lemma_object_view;

    if let Some(config) = document.get("config") {
        merge_at_root(target, "config", config, source);
    }
    if let Some(repositories) = document.get("repositories") {
        merge_at_root(target, "repositories", repositories, source);
    }
    if let Json::Object(entries) = document {
        let ghost s = target@;
        let ghost o = entries_view(entries@);
        let mut i: usize = 0;
        while i < entries.len()
            invariant
                i <= entries.len(),
                o == entries_view(entries@),
                target@ == root_replaced(s, o, i as int, source@),
            decreases entries.len() - i,
        {
            let key = entries[i].0.as_str();
            if !str_equal(key, "config") && !str_equal(key, "repositories") {
                put(&mut target.value, key, copy(&entries[i].1));
                put(&mut target.sources, key, source_value_tree(&entries[i].1, source));
            }
            i += 1;
        }
    }
}

/// Lays the credentials of a file over the configuration.
pub fn merge_auth(target: &mut MergedConfig, auth: &Json, source: &str)
    ensures
        final(target)@ == auth_merged(old(target)@, auth@, source@),
{
    broadcast use lemma_object_view;

    if let Json::Object(entries) = auth {
        let ghost o = entries_view(entries@);
        let mut config = take_or_empty(&target.value, "config");
        let mut origin = take_or_empty(&target.sources, "config");
        if entries.len() > 0 {
            let mut values = into_entries(config);
            let mut sources = into_entries(origin);
            let ghost c = entries_view(values@);
            let ghost d = entries_view(sources@);
            let mut i: usize = 0;
            while i < entries.len()
                invariant
                    i <= entries.len(),
                    o == entries_view(entries@),
                    entries_view(values@) == credentials_merged(c, o, i as int),
                    entries_view(sources@) == credential_origins(d, o, i as int, source@),
                decreases entries.len() - i,
            {
                let key = entries[i].0.as_str();
                merge_value(&mut values, &entries[i].1, key);
                merge_source_value(&mut sources, &entries[i].1, key, source);
                i += 1;
            }
            config = Json::Object(values);
            origin = Json::Object(sources);
        }
        put(&mut target.value, "config", config);
        put(&mut target.sources, "config", origin);
    }
}

fn into_entries(value: Json) -> (r: Vec<(String, Json)>)
    ensures
        entries_view(r@) == value@.entries(),
{
    broadcast use lemma_object_view;

    match value {
        Json::Object(entries) => entries,
        _ => {
            let none: Vec<(String, Json)> = Vec::new();
            assert(entries_view(none@) =~= Seq::empty());
            none
        },
    }
}

fn merge_value(target: &mut Vec<(String, Json)>, value: &Json, key: &str)
    ensures
        entries_view(final(target)@) == with_entry(
            entries_view(old(target)@),
            key@,
            merged(or_empty(entries_view(old(target)@), key@), value@),
        ),
{
    let mut child = take_or_empty(target, key);
    merge_objects(&mut child, value);
    put(target, key, child);
}

fn merge_source_value(target: &mut Vec<(String, Json)>, value: &Json, key: &str, source: &str)
    ensures
        entries_view(final(target)@) == with_entry(
            entries_view(old(target)@),
            key@,
            origins_merged(
                match value_of(entries_view(old(target)@), key@) {
                    Some(v) => v,
                    None => JsonView::Text(source@),
                },
                value@,
                source@,
            ),
        ),
{
    let at: usize = find_key(target, key);
    let mut child = if at < target.len() {
        assert(entries_view(target@)[at as int].1 == target@[at as int].1@);
        copy(&target[at].1)
    } else {
        text(source)
    };
    merge_source_tree(&mut child, value, source);
    put(target, key, child);
}


// ---------------------------------------------------------------------------
// Repositories
// ---------------------------------------------------------------------------
/// The first origin in a tree of them.
pub open spec fn first_origin(source: JsonView) -> Option<Seq<char>>
    decreases source,
{
    match source {
        JsonView::Text(t) => Some(t),
        JsonView::Object(o) => first_origin_from(o, 0),
        _ => None,
    }
}

/// The first origin in the entries from the `n`-th on.
pub open spec fn first_origin_from(o: Entries, n: int) -> Option<Seq<char>>
    decreases o, o.len() - n,
{
    if n < 0 || n >= o.len() {
        None
    } else {
        match first_origin(o[n].1) {
            Some(t) => Some(t),
            None => first_origin_from(o, n + 1),
        }
    }
}

/// The first origin in a tree of them.
pub fn source_leaf<'a>(source: &'a Json) -> (r: Option<&'a str>)
    ensures
        r.is_some() == first_origin(source@).is_some(),
        r matches Some(t) ==> t@ == first_origin(source@)->0,
    decreases source,
{
    match source {
        Json::Text(t) => Some(t.as_str()),
        Json::Object(entries) => {
            proof {
                lemma_object_view(*entries);
            }
            let ghost o = entries_view(entries@);
            let mut i: usize = 0;
            while i < entries.len()
                invariant
                    i <= entries.len(),
                    o == entries_view(entries@),
                    decreases_to!(source => entries),
                    first_origin(source@) == first_origin_from(o, i as int),
                decreases entries.len() - i,
            {
                assert(o[i as int].1 == entries@[i as int].1@);
                if let Some(t) = source_leaf(&entries[i].1) {
                    return Some(t);
                }
                i += 1;
            }
            None
        },
        _ => None,
    }
}

/// The entry switches the public repository off.
pub open spec fn switches_packagist_off(repository: JsonView) -> bool {
    repository.field("packagist.org"@) == Some(JsonView::Bool(false))
}

/// The list has an entry that switches the public repository off.
pub open spec fn packagist_off(list: Seq<JsonView>) -> bool {
    exists|i: int| 0 <= i < list.len() && switches_packagist_off(#[trigger] list[i])
}

/// The list has a repository with the name of the public one.
pub open spec fn packagist_named(list: Seq<JsonView>) -> bool {
    exists|i: int|
        0 <= i < list.len() && (#[trigger] list[i]).field("name"@) == Some(
            JsonView::Text("packagist.org"@),
        )
}

/// The repositories of the first `n` entries of a list that are not switched off,
/// numbered from zero.
pub open spec fn numbered(list: Seq<JsonView>, n: int) -> Entries
    decreases n,
{
    if n <= 0 || n > list.len() {
        Seq::empty()
    } else {
        let so_far = numbered(list, n - 1);
        if switches_packagist_off(list[n - 1]) {
            so_far
        } else {
            so_far.push((decimal(so_far.len()), list[n - 1]))
        }
    }
}

/// A list of repositories by number, with the public one behind them where the list
/// neither holds it nor switches it off.
pub open spec fn completed_list(list: Seq<JsonView>) -> Entries {
    let o = numbered(list, list.len() as int);
    if packagist_off(list) || packagist_named(list) {
        o
    } else {
        o.push(("packagist.org"@, packagist()))
    }
}

/// The origins of such a list.
pub open spec fn completed_origins(list: Seq<JsonView>, source: Seq<char>) -> Entries {
    let o = origins(numbered(list, list.len() as int), source);
    if packagist_off(list) || packagist_named(list) {
        o
    } else {
        o.push(("packagist.org"@, origin_tree(packagist(), "default"@)))
    }
}

/// The configuration with its repositories as an object: what is switched off goes,
/// and a list gets the public repository where it does not decide on it.
pub open spec fn packagist_ensured(s: State) -> State {
    let repositories = or_empty(s.value, "repositories"@);
    match repositories {
        JsonView::Object(o) => if value_of(o, "packagist.org"@) == Some(JsonView::Bool(false)) {
            State {
                value: with_entry(
                    s.value,
                    "repositories"@,
                    JsonView::Object(without_key(o, "packagist.org"@)),
                ),
                sources: match value_of(s.sources, "repositories"@) {
                    Some(JsonView::Object(p)) => with_entry(
                        s.sources,
                        "repositories"@,
                        JsonView::Object(without_key(p, "packagist.org"@)),
                    ),
                    _ => s.sources,
                },
            }
        } else {
            State { value: with_entry(s.value, "repositories"@, repositories), sources: s.sources }
        },
        JsonView::Array(list) => {
            let origin = match value_of(s.sources, "repositories"@) {
                Some(t) => match first_origin(t) {
                    Some(u) => u,
                    None => "unknown"@,
                },
                None => "unknown"@,
            };
            State {
                value: with_entry(
                    s.value,
                    "repositories"@,
                    JsonView::Object(completed_list(list)),
                ),
                sources: with_entry(
                    s.sources,
                    "repositories"@,
                    JsonView::Object(completed_origins(list, origin)),
                ),
            }
        },
        _ => s,
    }
}

fn turns_packagist_off(repository: &Json) -> (r: bool)
    ensures
        r == switches_packagist_off(repository@),
{
    match repository.get("packagist.org") {
        Some(Json::Bool(b)) => !*b,
        _ => false,
    }
}

fn is_named_packagist(repository: &Json) -> (r: bool)
    ensures
        r == (repository@.field("name"@) == Some(JsonView::Text("packagist.org"@))),
{
    match repository.get("name") {
        Some(Json::Text(t)) => str_equal(t.as_str(), "packagist.org"),
        _ => false,
    }
}

/// The repositories of a list by number, and their origins.
fn number_list(list: &Vec<Json>, source: &str) -> (r: (Vec<(String, Json)>, Vec<(String, Json)>))
    ensures
        entries_view(r.0@) == completed_list(items_view(list@)),
        entries_view(r.1@) == completed_origins(items_view(list@), source@),
{
    let ghost all = items_view(list@);
    let mut object: Vec<(String, Json)> = Vec::new();
    let mut source_object: Vec<(String, Json)> = Vec::new();
    let mut disabled = false;
    let mut named = false;
    let mut i: usize = 0;
    assert(entries_view(object@) =~= numbered(all, 0));
    assert(entries_view(source_object@) =~= origins(numbered(all, 0), source@));
    while i < list.len()
        invariant
            i <= list.len(),
            all == items_view(list@),
            entries_view(object@) == numbered(all, i as int),
            entries_view(source_object@) == origins(numbered(all, i as int), source@),
            disabled == exists|k: int| 0 <= k < i && switches_packagist_off(#[trigger] all[k]),
            named == exists|k: int|
                0 <= k < i && (#[trigger] all[k]).field("name"@) == Some(
                    JsonView::Text("packagist.org"@),
                ),
        decreases list.len() - i,
    {
        assert(all[i as int] == list@[i as int]@);
        let off = turns_packagist_off(&list[i]);
        let called = is_named_packagist(&list[i]);
        if !off {
            assert(entries_view(object@).len() == object@.len());
            let key = number(object.len() as u64);
            add_entry(&mut source_object, key.as_str(), source_value_tree(&list[i], source));
            add_entry(&mut object, key.as_str(), copy(&list[i]));
        }
        assert(disabled || off == exists|k: int|
            0 <= k < i + 1 && switches_packagist_off(#[trigger] all[k]));
        disabled = disabled || off;
        named = named || called;
        i += 1;
        assert(entries_view(source_object@) =~= origins(numbered(all, i as int), source@));
    }
    if !disabled && !named {
        let public = pair_of_texts("type", "composer", "url", "https://repo.packagist.org");
        let origin = source_value_tree(&public, "default");
        add_entry(&mut source_object, "packagist.org", origin);
        add_entry(&mut object, "packagist.org", public);
    }
    (object, source_object)
}

/// Settles the repositories of the configuration.
pub fn ensure_packagist(target: &mut MergedConfig)
    ensures
        final(target)@ == packagist_ensured(old(target)@),
{
    broadcast use {lemma_object_view, lemma_array_view};

    let ghost before = target@;
    let repositories = take_or_empty(&target.value, "repositories");
    match repositories {
        Json::Object(entries) => {
            let mut object = entries;
            let at: usize = find_key(&object, "packagist.org");
            let off = at < object.len() && matches!(object[at].1, Json::Bool(false));
            assert(at < object.len() ==> entries_view(object@)[at as int].1
                == object@[at as int].1@);
            if off {
                cut(&mut object, "packagist.org");
                let place: usize = find_key(&target.sources, "repositories");
                if place < target.sources.len() {
                    assert(entries_view(target.sources@)[place as int].1
                        == target.sources@[place as int].1@);
                    let origin = copy(&target.sources[place].1);
                    if let Json::Object(inner) = origin {
                        let mut inner = inner;
                        cut(&mut inner, "packagist.org");
                        put(&mut target.sources, "repositories", Json::Object(inner));
                    }
                }
            }
            put(&mut target.value, "repositories", Json::Object(object));
        },
        Json::Array(list) => {
            let place: usize = find_key(&target.sources, "repositories");
            let origin = if place < target.sources.len() {
                assert(entries_view(target.sources@)[place as int].1
                    == target.sources@[place as int].1@);
                match source_leaf(&target.sources[place].1) {
                    Some(t) => t.to_owned(),
                    None => "unknown".to_owned(),
                }
            } else {
                "unknown".to_owned()
            };
            let (object, source_object) = number_list(&list, origin.as_str());
            put(&mut target.value, "repositories", Json::Object(object));
            put(&mut target.sources, "repositories", Json::Object(source_object));
        },
        _ => {},
    }
}


proof fn lemma_numbered_len(list: Seq<JsonView>, n: int)
    requires
        0 <= n <= list.len(),
    ensures
        forall|i: int|
            0 <= i < numbered(list, n).len() ==> (#[trigger] numbered(list, n)[i]).0 == decimal(
                i as nat,
            ),
    decreases n,
{
    if n > 0 {
        lemma_numbered_len(list, n - 1);
        let before = numbered(list, n - 1);
        assert forall|i: int| 0 <= i < numbered(list, n).len() implies (#[trigger] numbered(
            list,
            n,
        )[i]).0 == decimal(i as nat) by {
            if i < before.len() {
                assert(numbered(list, n)[i] == before[i]);
            }
        }
    }
}

/// Every repository of a list stands under a name of its own.
pub proof fn law_numbered_repositories_differ(list: Seq<JsonView>)
    ensures
        keys_differ(completed_list(list)),
{
    let o = numbered(list, list.len() as int);
    let all = completed_list(list);
    lemma_numbered_len(list, list.len() as int);
    assert forall|i: int, j: int| 0 <= i < j < all.len() implies #[trigger] all[i].0
        != #[trigger] all[j].0 by {
        assert(all[i] == o[i]);
        crate::text::lemma_decimal_digits(i as nat);
        if j < o.len() {
            assert(all[j] == o[j]);
            if decimal(i as nat) == decimal(j as nat) {
                crate::text::lemma_decimal_injective(i as nat, j as nat);
            }
        } else {
            reveal_strlit("packagist.org");
            assert(!crate::text::is_digit("packagist.org"@[0]));
        }
    }
}

// ---------------------------------------------------------------------------
// The environment
// ---------------------------------------------------------------------------
/// The environment variables that override settings, where they are set.
#[derive(Debug)]
pub struct Environment {
    pub process_timeout: Option<String>,
    pub vendor_dir: Option<String>,
    pub bin_dir: Option<String>,
    pub cache_dir: Option<String>,
    pub discard_changes: Option<String>,
    pub cache_read_only: Option<String>,
}

/// A whole number as JSON.
pub open spec fn whole(n: int) -> JsonView {
    if n >= 0 {
        JsonView::Number(NumberView::Unsigned(n as u64))
    } else {
        JsonView::Number(NumberView::Negative(n as i64))
    }
}

/// What a variable stands for where a number is expected.
pub open spec fn number_or_text(raw: Seq<char>) -> JsonView {
    match whole_number(raw) {
        Some(n) => whole(n),
        None => JsonView::Text(raw),
    }
}

/// What a variable stands for where a switch is expected.
pub open spec fn switch(raw: Seq<char>) -> JsonView {
    JsonView::Bool(!(raw == "0"@ || raw == "false"@))
}

/// The configuration with a variable in force. One that is not set, or empty,
/// changes nothing.
pub open spec fn overridden(
    s: State,
    raw: Option<String>,
    key: Seq<char>,
    variable: Seq<char>,
    read: spec_fn(Seq<char>) -> JsonView,
) -> State {
    match raw {
        Some(t) => if t@.len() == 0 {
            s
        } else {
            State {
                value: with_path(
                    JsonView::Object(s.value),
                    seq!["config"@, key],
                    read(t@),
                ).entries(),
                sources: with_path(
                    JsonView::Object(s.sources),
                    seq!["config"@, key],
                    JsonView::Text(variable),
                ).entries(),
            }
        },
        None => s,
    }
}

/// The configuration with the environment in force.
pub open spec fn environment_applied(s: State, e: Environment) -> State {
    let plain = |t: Seq<char>| JsonView::Text(t);
    let s = overridden(
        s,
        e.process_timeout,
        "process-timeout"@,
        "COMPOSER_PROCESS_TIMEOUT"@,
        |t: Seq<char>| number_or_text(t),
    );
    let s = overridden(s, e.vendor_dir, "vendor-dir"@, "COMPOSER_VENDOR_DIR"@, plain);
    let s = overridden(s, e.bin_dir, "bin-dir"@, "COMPOSER_BIN_DIR"@, plain);
    let s = overridden(s, e.cache_dir, "cache-dir"@, "COMPOSER_CACHE_DIR"@, plain);
    let s = overridden(s, e.discard_changes, "discard-changes"@, "COMPOSER_DISCARD_CHANGES"@, plain);
    overridden(
        s,
        e.cache_read_only,
        "cache-read-only"@,
        "COMPOSER_CACHE_READ_ONLY"@,
        |t: Seq<char>| switch(t),
    )
}

fn put_nested(entries: &mut Vec<(String, Json)>, key: &str, value: Json)
    ensures
        entries_view(final(entries)@) == with_path(
            JsonView::Object(entries_view(old(entries)@)),
            seq!["config"@, key@],
            value@,
        ).entries(),
{
    broadcast use lemma_object_view;

    let mut root = Json::Object(Vec::new());
    let mut held: Vec<(String, Json)> = Vec::new();
    core::mem::swap(entries, &mut held);
    root = Json::Object(held);
    let mut path: Vec<&str> = Vec::new();
    path.push("config");
    path.push(key);
    assert(str_views(path@) =~= seq!["config"@, key@]);
    set_nested(&mut root, path.as_slice(), value);
    held = into_entries(root);
    core::mem::swap(entries, &mut held);
}

fn override_setting(target: &mut MergedConfig, key: &str, variable: &str, value: Json)
    ensures
        final(target)@ == (State {
            value: with_path(
                JsonView::Object(old(target)@.value),
                seq!["config"@, key@],
                value@,
            ).entries(),
            sources: with_path(
                JsonView::Object(old(target)@.sources),
                seq!["config"@, key@],
                JsonView::Text(variable@),
            ).entries(),
        }),
{
    put_nested(&mut target.value, key, value);
    put_nested(&mut target.sources, key, text(variable));
}

fn override_text(target: &mut MergedConfig, raw: &Option<String>, key: &str, variable: &str)
    ensures
        final(target)@ == overridden(
            old(target)@,
            *raw,
            key@,
            variable@,
            |t: Seq<char>| JsonView::Text(t),
        ),
{
    if let Some(t) = raw {
        if !t.as_str().is_empty() {
            override_setting(target, key, variable, text(t.as_str()));
        }
    }
}

/// Puts the environment in force.
pub fn apply_environment(target: &mut MergedConfig, environment: &Environment)
    ensures
        final(target)@ == environment_applied(old(target)@, *environment),
{
    if let Some(t) = &environment.process_timeout {
        if !t.as_str().is_empty() {
            let value = match parse_i64(t.as_str()) {
                Some(n) => Json::Number(
                    if n >= 0 {
                        Number::Unsigned(n as u64)
                    } else {
                        Number::Negative(n)
                    },
                ),
                None => text(t.as_str()),
            };
            override_setting(target, "process-timeout", "COMPOSER_PROCESS_TIMEOUT", value);
        }
    }
    override_text(target, &environment.vendor_dir, "vendor-dir", "COMPOSER_VENDOR_DIR");
    override_text(target, &environment.bin_dir, "bin-dir", "COMPOSER_BIN_DIR");
    override_text(target, &environment.cache_dir, "cache-dir", "COMPOSER_CACHE_DIR");
    override_text(
        target,
        &environment.discard_changes,
        "discard-changes",
        "COMPOSER_DISCARD_CHANGES",
    );
    if let Some(t) = &environment.cache_read_only {
        if !t.as_str().is_empty() {
            let on = !(str_equal(t.as_str(), "0") || str_equal(t.as_str(), "false"));
            override_setting(
                target,
                "cache-read-only",
                "COMPOSER_CACHE_READ_ONLY",
                Json::Bool(on),
            );
        }
    }
}

// ---------------------------------------------------------------------------
// Transport security
// ---------------------------------------------------------------------------
/// The truth value of a setting under `config`.
pub open spec fn config_bool(o: Entries, key: Seq<char>) -> Option<bool> {
    match at_path(JsonView::Object(o), seq!["config"@, key]) {
        Some(JsonView::Bool(b)) => Some(b),
        _ => None,
    }
}

/// The text of a setting under `config`.
pub open spec fn config_text(o: Entries, key: Seq<char>) -> Option<Seq<char>> {
    match at_path(JsonView::Object(o), seq!["config"@, key]) {
        Some(v) => v.text(),
        None => None,
    }
}

/// Without TLS, secure HTTP is off; with secure HTTP off, the `git` protocol is
/// among those for GitHub.
pub open spec fn transport_settled(o: Entries) -> Entries {
    if config_bool(o, "disable-tls"@) == Some(true) {
        with_path(
            JsonView::Object(o),
            seq!["config"@, "secure-http"@],
            JsonView::Bool(false),
        ).entries()
    } else if config_bool(o, "secure-http"@) == Some(false) {
        match at_path(JsonView::Object(o), seq!["config"@, "github-protocols"@]) {
            Some(JsonView::Array(list)) => if list.contains(JsonView::Text("git"@)) {
                o
            } else {
                with_path(
                    JsonView::Object(o),
                    seq!["config"@, "github-protocols"@],
                    JsonView::Array(list.push(JsonView::Text("git"@))),
                ).entries()
            },
            _ => o,
        }
    } else {
        o
    }
}

/// What stands under `config` and a key.
pub fn config_at<'a>(entries: &'a Vec<(String, Json)>, key: &str) -> (r: Option<&'a Json>)
    ensures
        r.is_some() == at_path(
            JsonView::Object(entries_view(entries@)),
            seq!["config"@, key@],
        ).is_some(),
        r matches Some(v) ==> v@ == at_path(
            JsonView::Object(entries_view(entries@)),
            seq!["config"@, key@],
        )->0,
{
    proof {
        reveal_with_fuel(at_path, 3);
        let p = seq!["config"@, key@];
        assert(p.drop_first() =~= seq![key@]);
        assert(p.drop_first().drop_first() =~= Seq::empty());
    }
    let at: usize = find_key(entries, "config");
    if at < entries.len() {
        assert(entries_view(entries@)[at as int].1 == entries@[at as int].1@);
        entries[at].1.get(key)
    } else {
        None
    }
}

fn has_text(list: &Vec<Json>, word: &str) -> (r: bool)
    ensures
        r == items_view(list@).contains(JsonView::Text(word@)),
{
    let mut i: usize = 0;
    while i < list.len()
        invariant
            i <= list.len(),
            forall|k: int| 0 <= k < i ==> items_view(list@)[k] != JsonView::Text(word@),
        decreases list.len() - i,
    {
        assert(items_view(list@)[i as int] == list@[i as int]@);
        if let Json::Text(t) = &list[i] {
            if str_equal(t.as_str(), word) {
                return true;
            }
        }
        i += 1;
    }
    false
}

fn settle_transport(entries: &mut Vec<(String, Json)>)
    ensures
        entries_view(final(entries)@) == transport_settled(entries_view(old(entries)@)),
{
    broadcast use lemma_array_view;

    let tls_off = match config_at(entries, "disable-tls") {
        Some(Json::Bool(b)) => *b,
        _ => false,
    };
    if tls_off {
        put_nested(entries, "secure-http", Json::Bool(false));
        return;
    }
    let insecure = match config_at(entries, "secure-http") {
        Some(Json::Bool(b)) => !*b,
        _ => false,
    };
    if insecure {
        let protocols = match config_at(entries, "github-protocols") {
            Some(Json::Array(list)) => if has_text(list, "git") {
                None
            } else {
                Some(copy_items(list))
            },
            _ => None,
        };
        if let Some(list) = protocols {
            let mut list = list;
            let one = text("git");
            proof {
                lemma_items_push(list@, one);
            }
            list.push(one);
            put_nested(entries, "github-protocols", Json::Array(list));
        }
    }
}

fn copy_items(list: &Vec<Json>) -> (r: Vec<Json>)
    ensures
        items_view(r@) == items_view(list@),
{
    let mut out: Vec<Json> = Vec::new();
    let mut i: usize = 0;
    while i < list.len()
        invariant
            i <= list.len(),
            items_view(out@) == items_view(list@).take(i as int),
        decreases list.len() - i,
    {
        let one = copy(&list[i]);
        proof {
            lemma_items_push(out@, one);
        }
        out.push(one);
        i += 1;
        assert(items_view(out@) =~= items_view(list@).take(i as int));
    }
    assert(items_view(out@) =~= items_view(list@));
    out
}

// ---------------------------------------------------------------------------
// Directories
// ---------------------------------------------------------------------------
/// A directory seen from `base`.
pub fn absolute_path(raw: &str, base: &str) -> (r: String)
    ensures
        r@ == joined_path(base@, raw@),
{
    if is_absolute(raw) {
        raw.to_owned()
    } else {
        join_path(base, raw)
    }
}

/// A directory setting with the vendor and the cache directory filled in, seen from `base`.
pub open spec fn resolved_setting(
    o: Entries,
    key: Seq<char>,
    base: Seq<char>,
    vendor: Seq<char>,
    cache: Seq<char>,
) -> Seq<char> {
    let raw = match config_text(o, key) {
        Some(t) => t,
        None => Seq::empty(),
    };
    joined_path(
        base,
        replaced(replaced(raw, "{$vendor-dir}"@, vendor), "{$cache-dir}"@, cache),
    )
}

/// The vendor directory, seen from `base`.
pub open spec fn resolved_vendor(o: Entries, base: Seq<char>) -> Seq<char> {
    joined_path(
        base,
        match config_text(o, "vendor-dir"@) {
            Some(t) => t,
            None => "vendor"@,
        },
    )
}

/// The cache directory, seen from `base`.
pub open spec fn resolved_cache(o: Entries, base: Seq<char>, home: Seq<char>) -> Seq<char> {
    joined_path(
        base,
        match config_text(o, "cache-dir"@) {
            Some(t) => t,
            None => joined_path(home, "cache"@),
        },
    )
}

/// A resolved directory noted under its setting.
pub open spec fn noted(v: JsonView, key: Seq<char>, path: Seq<char>) -> JsonView {
    with_path(v, seq![key], JsonView::Text(path))
}

/// The configuration with every directory resolved, under a key of its own.
pub open spec fn paths_resolved(o: Entries, base: Seq<char>, home: Seq<char>) -> Entries {
    let vendor = resolved_vendor(o, base);
    let cache = resolved_cache(o, base, home);
    let v = or_empty(o, "_resolved-paths"@);
    let v = noted(v, "vendor-dir"@, vendor);
    let v = noted(v, "bin-dir"@, resolved_setting(o, "bin-dir"@, base, vendor, cache));
    let v = noted(v, "cache-dir"@, cache);
    let v = noted(
        v,
        "cache-files-dir"@,
        resolved_setting(o, "cache-files-dir"@, base, vendor, cache),
    );
    let v = noted(
        v,
        "cache-repo-dir"@,
        resolved_setting(o, "cache-repo-dir"@, base, vendor, cache),
    );
    let v = noted(
        v,
        "cache-vcs-dir"@,
        resolved_setting(o, "cache-vcs-dir"@, base, vendor, cache),
    );
    let v = noted(v, "data-dir"@, resolved_setting(o, "data-dir"@, base, vendor, cache));
    with_entry(o, "_resolved-paths"@, v)
}

fn resolve_path_setting(
    entries: &Vec<(String, Json)>,
    key: &str,
    base: &str,
    vendor: &str,
    cache: &str,
) -> (r: String)
    ensures
        r@ == resolved_setting(entries_view(entries@), key@, base@, vendor@, cache@),
{
    proof {
        reveal_strlit("{$vendor-dir}");
        reveal_strlit("{$cache-dir}");
    }
    let raw = match config_at(entries, key) {
        Some(Json::Text(t)) => t.clone(),
        _ => String::new(),
    };
    let with_vendor = replace(raw.as_str(), "{$vendor-dir}", vendor);
    let expanded = replace(with_vendor.as_str(), "{$cache-dir}", cache);
    absolute_path(expanded.as_str(), base)
}

fn note(v: &mut Json, key: &str, path: String)
    ensures
        final(v)@ == noted(old(v)@, key@, path@),
{
    let mut place: Vec<&str> = Vec::new();
    place.push(key);
    assert(str_views(place@) =~= seq![key@]);
    set_nested(v, place.as_slice(), Json::Text(path));
}

/// Resolves every directory of the configuration, seen from the home directory for
/// the global one and from the working directory else.
pub fn resolve_computed_paths(
    entries: &mut Vec<(String, Json)>,
    working_dir: &str,
    home: &str,
    global: bool,
)
    ensures
        entries_view(final(entries)@) == paths_resolved(
            entries_view(old(entries)@),
            if global {
                home@
            } else {
                working_dir@
            },
            home@,
        ),
{
    let base = if global {
        home
    } else {
        working_dir
    };
    let raw_vendor = match config_at(entries, "vendor-dir") {
        Some(Json::Text(t)) => t.clone(),
        _ => "vendor".to_owned(),
    };
    let raw_cache = match config_at(entries, "cache-dir") {
        Some(Json::Text(t)) => t.clone(),
        _ => join_path(home, "cache"),
    };
    let vendor = absolute_path(raw_vendor.as_str(), base);
    let cache = absolute_path(raw_cache.as_str(), base);
    let bin_dir = resolve_path_setting(entries, "bin-dir", base, vendor.as_str(), cache.as_str());
    let files_dir = resolve_path_setting(
        entries,
        "cache-files-dir",
        base,
        vendor.as_str(),
        cache.as_str(),
    );
    let repo_dir = resolve_path_setting(
        entries,
        "cache-repo-dir",
        base,
        vendor.as_str(),
        cache.as_str(),
    );
    let vcs_dir = resolve_path_setting(
        entries,
        "cache-vcs-dir",
        base,
        vendor.as_str(),
        cache.as_str(),
    );
    let data_dir = resolve_path_setting(entries, "data-dir", base, vendor.as_str(), cache.as_str());
    let mut v = take_or_empty(entries, "_resolved-paths");
    note(&mut v, "vendor-dir", vendor);
    note(&mut v, "bin-dir", bin_dir);
    note(&mut v, "cache-dir", cache);
    note(&mut v, "cache-files-dir", files_dir);
    note(&mut v, "cache-repo-dir", repo_dir);
    note(&mut v, "cache-vcs-dir", vcs_dir);
    note(&mut v, "data-dir", data_dir);
    put(entries, "_resolved-paths", v);
}

// ---------------------------------------------------------------------------
// The configuration in force
// ---------------------------------------------------------------------------
/// A configuration file and its credentials, with the paths they were read from.
#[derive(Debug)]
pub struct Layer {
    pub document: Option<Json>,
    pub source: String,
    pub auth: Option<Json>,
    pub auth_source: String,
}

/// A layer over the configuration: the file first, its credentials over it.
pub open spec fn layered(s: State, layer: Layer) -> State {
    let with_document = match layer.document {
        Some(d) => document_merged(s, d@, layer.source@),
        None => s,
    };
    match layer.auth {
        Some(a) => auth_merged(with_document, a@, layer.auth_source@),
        None => with_document,
    }
}

/// The layers one over the other.
pub open spec fn all_layered(s: State, layers: Seq<Layer>) -> State
    decreases layers.len(),
{
    if layers.len() == 0 {
        s
    } else {
        layered(all_layered(s, layers.drop_last()), layers.last())
    }
}

/// The configuration in force: the defaults, the layers in order, then the
/// environment; with transport, repositories and directories settled.
pub open spec fn in_force(
    layers: Seq<Layer>,
    environment: Environment,
    working_dir: Seq<char>,
    home: Seq<char>,
    global: bool,
) -> State {
    let base = State { value: defaults(home), sources: origins(defaults(home), "default"@) };
    let s = environment_applied(all_layered(base, layers), environment);
    let s = State { value: transport_settled(s.value), sources: s.sources };
    let s = packagist_ensured(s);
    State {
        value: paths_resolved(
            s.value,
            if global {
                home
            } else {
                working_dir
            },
            home,
        ),
        sources: s.sources,
    }
}

/// Loads the configuration in force. For the global configuration the one layer is
/// its own file; else the global files come first and those of the project over them.
pub fn load_merged_config(
    layers: &[Layer],
    environment: &Environment,
    working_dir: &str,
    home: &str,
    global: bool,
) -> (r: MergedConfig)
    ensures
        r@ == in_force(layers@, *environment, working_dir@, home@, global),
{
    let value = default_configuration(home);
    let sources = source_tree(&value, "default");
    let mut config = MergedConfig { value, sources };
    let ghost base = config@;
    let mut i: usize = 0;
    assert(layers@.take(0) =~= Seq::empty());
    while i < layers.len()
        invariant
            i <= layers.len(),
            config@ == all_layered(base, layers@.take(i as int)),
        decreases layers.len() - i,
    {
        proof {
            assert(layers@.take(i + 1).drop_last() =~= layers@.take(i as int));
        }
        if let Some(d) = &layers[i].document {
            merge_document(&mut config, d, layers[i].source.as_str());
        }
        if let Some(a) = &layers[i].auth {
            merge_auth(&mut config, a, layers[i].auth_source.as_str());
        }
        i += 1;
    }
    assert(layers@.take(i as int) =~= layers@);
    apply_environment(&mut config, environment);
    settle_transport(&mut config.value);
    ensure_packagist(&mut config);
    resolve_computed_paths(&mut config.value, working_dir, home, global);
    config
}

} // verus!
