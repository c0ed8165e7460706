//! What holds of settings from the file to the answer.
use vstd::prelude::*;

use crate::json::{
    at_path, key_at, keys_differ, lemma_key_at, lemma_with_entry, merged, value_of, with_entry,
    with_path, Entries, JsonView,
};
use crate::json_laws::{
    diverge, law_merge_by_key, law_read_after_remove, law_read_after_write,
    law_write_keeps_keys_single, law_write_keeps_the_rest,
};
use crate::settings::documents::{
    all_layered, defaults, document_merged, environment_applied, first_origin, in_force, or_empty,
    origin_entries, origins, origins_merged, overridden, packagist_ensured, paths_resolved,
    root_merged, root_replaced, transport_settled, Environment, Layer, State,
};
use crate::settings::keys::{config_key, credentials_of, repository_of, root_list, root_string};
use crate::settings::read::setting_read;
use crate::settings::values::single;
use crate::settings::write::{path_below, planned, unset};
use crate::text::{
    after, ascii_lower, before, find_from, halves, has_prefix, lemma_find_from,
    lemma_find_from_unique, without_prefix,
};

verus! {

/// What stands at a path of two keys.
proof fn lemma_two_keys(o: Entries, a: Seq<char>, b: Seq<char>)
    ensures
        at_path(JsonView::Object(o), seq![a, b]) == match value_of(o, a) {
            Some(v) => v.field(b),
            None => None,
        },
{
    reveal_with_fuel(at_path, 3);
    let p = seq![a, b];
    assert(p.drop_first() =~= seq![b]);
    assert(p.drop_first().drop_first() =~= Seq::empty());
}

proof fn lemma_root_replaced_keeps(s: State, o: Entries, n: int, source: Seq<char>, key: Seq<char>)
    requires
        key == "config"@ || key == "repositories"@,
    ensures
        value_of(root_replaced(s, o, n, source).value, key) == value_of(s.value, key),
        value_of(root_replaced(s, o, n, source).sources, key) == value_of(s.sources, key),
    decreases n,
{
    if 0 < n <= o.len() {
        lemma_root_replaced_keeps(s, o, n - 1, source, key);
        let t = root_replaced(s, o, n - 1, source);
        let (k, v) = o[n - 1];
        lemma_with_entry(t.value, k, v, key);
        lemma_with_entry(
            t.sources,
            k,
            crate::settings::documents::origin_tree(v, source),
            key,
        );
    }
}

proof fn lemma_origin_lookup(a: Entries, b: Entries, n: int, source: Seq<char>, key: Seq<char>)
    requires
        keys_differ(b),
        0 <= n <= b.len(),
    ensures
        key_at(b, key) < n ==> value_of(origin_entries(a, b, n, source), key) == Some(
            origins_merged(
                match value_of(a, key) {
                    Some(t) => t,
                    None => JsonView::Text(source),
                },
                b[key_at(b, key)].1,
                source,
            ),
        ),
        key_at(b, key) >= n ==> value_of(origin_entries(a, b, n, source), key) == value_of(a, key),
    decreases n,
{
    lemma_key_at(b, key);
    if n > 0 {
        let so_far = origin_entries(a, b, n - 1, source);
        let (k, v) = b[n - 1];
        lemma_origin_lookup(a, b, n - 1, source, key);
        lemma_key_at(b, k);
        let present = match value_of(so_far, k) {
            Some(t) => t,
            None => JsonView::Text(source),
        };
        lemma_with_entry(so_far, k, origins_merged(present, v, source), key);
        if key_at(b, key) == n - 1 {
            assert(k == key);
        } else if k == key {
            assert(key_at(b, key) < n - 1 ==> b[key_at(b, key)].0 != b[n - 1].0);
            assert(key_at(b, key) <= n - 1);
        }
    }
}

/// A setting that a file gives under `config` is in force once the file is laid over
/// the configuration, with the file as its origin.
pub proof fn law_file_setting_is_in_force(
    s: State,
    document: JsonView,
    key: Seq<char>,
    source: Seq<char>,
)
    requires
        document.wf(),
        at_path(document, seq!["config"@, key]) matches Some(x) && !(x is Object),
    ensures
        ({
            let t = document_merged(s, document, source);
            &&& at_path(JsonView::Object(t.value), seq!["config"@, key]) == at_path(
                document,
                seq!["config"@, key],
            )
            &&& at_path(JsonView::Object(t.sources), seq!["config"@, key]) == Some(
                JsonView::Text(source),
            )
        }),
{
    let o = document.entries();
    lemma_two_keys(o, "config"@, key);
    lemma_key_at(o, "config"@);
    let config = value_of(o, "config"@)->0;
    assert(o[key_at(o, "config"@)].1.wf());
    let b = config->Object_0;
    let x = value_of(b, key)->0;
    lemma_key_at(b, key);
    let with_config = root_merged(s, "config"@, config, source);
    let mine = or_empty(s.value, "config"@);
    let mine_sources = or_empty(s.sources, "config"@);
    lemma_with_entry(s.value, "config"@, merged(mine, config), "config"@);
    lemma_with_entry(
        s.sources,
        "config"@,
        origins_merged(mine_sources, config, source),
        "config"@,
    );
    if mine is Object {
        law_merge_by_key(mine->Object_0, b, key);
    }
    lemma_origin_lookup(mine_sources.entries(), b, b.len() as int, source, key);
    let with_repositories = match document.field("repositories"@) {
        Some(v) => root_merged(with_config, "repositories"@, v, source),
        None => with_config,
    };
    reveal_strlit("config");
    reveal_strlit("repositories");
    assert("config"@.len() != "repositories"@.len());
    if let Some(v) = document.field("repositories"@) {
        lemma_with_entry(
            with_config.value,
            "repositories"@,
            merged(or_empty(with_config.value, "repositories"@), v),
            "config"@,
        );
        lemma_with_entry(
            with_config.sources,
            "repositories"@,
            origins_merged(or_empty(with_config.sources, "repositories"@), v, source),
            "config"@,
        );
    }
    lemma_root_replaced_keeps(with_repositories, o, o.len() as int, source, "config"@);
    let t = document_merged(s, document, source);
    lemma_two_keys(t.value, "config"@, key);
    lemma_two_keys(t.sources, "config"@, key);
}

/// A setting that was written into a file is in force once the file is laid over the
/// configuration, whatever the file and the configuration held before.
pub proof fn law_written_setting_is_in_force(
    s: State,
    document: JsonView,
    key: Seq<char>,
    value: JsonView,
    source: Seq<char>,
)
    requires
        document.wf(),
        value.wf(),
        !(value is Object),
    ensures
        ({
            let t = document_merged(
                s,
                with_path(document, seq!["config"@, key], value),
                source,
            );
            &&& at_path(JsonView::Object(t.value), seq!["config"@, key]) == Some(value)
            &&& at_path(JsonView::Object(t.sources), seq!["config"@, key]) == Some(
                JsonView::Text(source),
            )
        }),
{
    let p = seq!["config"@, key];
    law_read_after_write(document, p, value);
    law_write_keeps_keys_single(document, p, value);
    law_file_setting_is_in_force(s, with_path(document, p, value), key, source);
}

proof fn lemma_other_root(o: Entries, root: Seq<char>, v: JsonView, key: Seq<char>)
    requires
        root != "config"@,
    ensures
        at_path(JsonView::Object(with_entry(o, root, v)), seq!["config"@, key]) == at_path(
            JsonView::Object(o),
            seq!["config"@, key],
        ),
{
    lemma_with_entry(o, root, v, "config"@);
    lemma_two_keys(o, "config"@, key);
    lemma_two_keys(with_entry(o, root, v), "config"@, key);
}

/// Settling the repositories leaves every setting under `config` and its origin.
proof fn lemma_repositories_aside(s: State, key: Seq<char>)
    ensures
        ({
            let t = packagist_ensured(s);
            let p = seq!["config"@, key];
            &&& at_path(JsonView::Object(t.value), p) == at_path(JsonView::Object(s.value), p)
            &&& at_path(JsonView::Object(t.sources), p) == at_path(JsonView::Object(s.sources), p)
        }),
{
    reveal_strlit("config");
    reveal_strlit("repositories");
    assert("config"@.len() != "repositories"@.len());
    let t = packagist_ensured(s);
    match or_empty(s.value, "repositories"@) {
        JsonView::Object(o) => {
            lemma_other_root(
                s.value,
                "repositories"@,
                JsonView::Object(crate::json::without_key(o, "packagist.org"@)),
                key,
            );
            lemma_other_root(s.value, "repositories"@, JsonView::Object(o), key);
            if let Some(JsonView::Object(q)) = value_of(s.sources, "repositories"@) {
                lemma_other_root(
                    s.sources,
                    "repositories"@,
                    JsonView::Object(crate::json::without_key(q, "packagist.org"@)),
                    key,
                );
            }
        },
        JsonView::Array(list) => {
            lemma_other_root(
                s.value,
                "repositories"@,
                value_of(t.value, "repositories"@)->0,
                key,
            );
            lemma_with_entry(
                s.value,
                "repositories"@,
                JsonView::Object(crate::settings::documents::completed_list(list)),
                "repositories"@,
            );
            lemma_other_root(
                s.sources,
                "repositories"@,
                value_of(t.sources, "repositories"@)->0,
                key,
            );
            let origin = match value_of(s.sources, "repositories"@) {
                Some(u) => match first_origin(u) {
                    Some(w) => w,
                    None => "unknown"@,
                },
                None => "unknown"@,
            };
            lemma_with_entry(
                s.sources,
                "repositories"@,
                JsonView::Object(
                    crate::settings::documents::completed_origins(list, origin),
                ),
                "repositories"@,
            );
        },
        _ => {},
    }
}

/// Settling the transport leaves every other setting under `config`.
proof fn lemma_transport_aside(o: Entries, key: Seq<char>)
    requires
        key != "secure-http"@,
        key != "github-protocols"@,
    ensures
        at_path(JsonView::Object(transport_settled(o)), seq!["config"@, key]) == at_path(
            JsonView::Object(o),
            seq!["config"@, key],
        ),
{
    let q = seq!["config"@, key];
    lemma_parting(key, "secure-http"@);
    lemma_parting(key, "github-protocols"@);
    law_write_keeps_the_rest(
        JsonView::Object(o),
        seq!["config"@, "secure-http"@],
        JsonView::Bool(false),
        q,
    );
    if let Some(JsonView::Array(list)) = at_path(
        JsonView::Object(o),
        seq!["config"@, "github-protocols"@],
    ) {
        law_write_keeps_the_rest(
            JsonView::Object(o),
            seq!["config"@, "github-protocols"@],
            JsonView::Array(list.push(JsonView::Text("git"@))),
            q,
        );
    }
}

proof fn lemma_parting(a: Seq<char>, b: Seq<char>)
    requires
        a != b,
    ensures
        diverge(seq!["config"@, b], seq!["config"@, a]),
{
    let p = seq!["config"@, b];
    let q = seq!["config"@, a];
    assert(p.drop_first() =~= seq![b]);
    assert(q.drop_first() =~= seq![a]);
    assert(diverge(p.drop_first(), q.drop_first()));
}

/// No variable of the environment is set.
pub open spec fn unset_environment(e: Environment) -> bool {
    e.process_timeout is None && e.vendor_dir is None && e.bin_dir is None && e.cache_dir is None
        && e.discard_changes is None && e.cache_read_only is None
}

/// A setting that was written into the last file, under a plain key, is what the
/// command answers for that key, with the file as its origin. The two settings that
/// follow from `disable-tls` and `secure-http` are the exception.
pub proof fn law_written_setting_is_read_back(
    layers: Seq<Layer>,
    document: JsonView,
    key: Seq<char>,
    value: JsonView,
    environment: Environment,
    working_dir: Seq<char>,
    home: Seq<char>,
    global: bool,
    selected: JsonView,
    name: Seq<char>,
)
    requires
        layers.len() > 0,
        layers.last().document matches Some(d) && d@ == with_path(
            document,
            seq!["config"@, key],
            value,
        ),
        layers.last().auth is None,
        document.wf(),
        value.wf(),
        !(value is Object),
        unset_environment(environment),
        key != "secure-http"@,
        key != "github-protocols"@,
        !key.contains('.'),
        repository_of(key) is None,
    ensures
        setting_read(
            key,
            in_force(layers, environment, working_dir, home, global),
            selected,
            name,
            false,
        ) == Ok::<(JsonView, Seq<char>), Seq<char>>((value, layers.last().source@)),
{
    let base = State { value: defaults(home), sources: origins(defaults(home), "default"@) };
    let below = all_layered(base, layers.drop_last());
    let source = layers.last().source@;
    law_written_setting_is_in_force(below, document, key, value, source);
    let s1 = all_layered(base, layers);
    assert(environment_applied(s1, environment) == s1);
    let s2 = State { value: transport_settled(s1.value), sources: s1.sources };
    lemma_transport_aside(s1.value, key);
    let s3 = packagist_ensured(s2);
    lemma_repositories_aside(s2, key);
    let s4 = in_force(layers, environment, working_dir, home, global);
    reveal_strlit("config");
    reveal_strlit("_resolved-paths");
    assert("config"@.len() != "_resolved-paths"@.len());
    lemma_key_at(s4.value, "_resolved-paths"@);
    let base_dir = if global {
        home
    } else {
        working_dir
    };
    lemma_resolved_aside(s3.value, base_dir, home, key);
    lemma_find_from(key, '.', 0);
    assert(halves(key, '.') is None) by {
        let i = find_from(key, '.', 0);
        if i < key.len() {
            assert(key[i] == '.');
            assert(key.contains('.'));
        }
    }
    assert(credentials_of(key) is None);
}

proof fn lemma_resolved_aside(o: Entries, base: Seq<char>, home: Seq<char>, key: Seq<char>)
    ensures
        at_path(JsonView::Object(paths_resolved(o, base, home)), seq!["config"@, key]) == at_path(
            JsonView::Object(o),
            seq!["config"@, key],
        ),
{
    reveal_strlit("config");
    reveal_strlit("_resolved-paths");
    assert("config"@.len() != "_resolved-paths"@.len());
    let t = paths_resolved(o, base, home);
    lemma_key_at(o, "_resolved-paths"@);
    let v = choose|v: JsonView| t == with_entry(o, "_resolved-paths"@, v);
    assert(t == with_entry(o, "_resolved-paths"@, v));
    lemma_other_root(o, "_resolved-paths"@, v, key);
}

/// A variable of the environment that is set and not empty decides its setting,
/// whatever the files say, and is named as its origin.
pub proof fn law_environment_decides(
    s: State,
    raw: String,
    key: Seq<char>,
    variable: Seq<char>,
    read: spec_fn(Seq<char>) -> JsonView,
)
    requires
        raw@.len() > 0,
    ensures
        ({
            let t = overridden(s, Some(raw), key, variable, read);
            &&& at_path(JsonView::Object(t.value), seq!["config"@, key]) == Some(read(raw@))
            &&& at_path(JsonView::Object(t.sources), seq!["config"@, key]) == Some(
                JsonView::Text(variable),
            )
        }),
{
    law_read_after_write(JsonView::Object(s.value), seq!["config"@, key], read(raw@));
    law_read_after_write(
        JsonView::Object(s.sources),
        seq!["config"@, key],
        JsonView::Text(variable),
    );
}

/// A setting under `config` that was unset is no longer in the file.
pub proof fn law_unset_setting_is_gone(document: JsonView, auth: JsonView, key: Seq<char>)
    requires
        document.wf(),
        config_key(key),
        repository_of(key) is None,
        credentials_of(key) is None,
        without_prefix(key, "policy."@) is None,
    ensures
        at_path(unset(key, document, auth).0, path_below("config"@, key)) is None,
{
    law_read_after_remove(document, path_below("config"@, key), false);
}

/// The platform package `php` cannot be switched off, however its name is written.
pub proof fn law_php_cannot_be_disabled(
    name: Seq<char>,
    json: bool,
    merge: bool,
    document: JsonView,
    number: Option<i64>,
    read: Option<JsonView>,
    global: bool,
)
    requires
        ascii_lower(name) == "php"@,
    ensures
        planned(
            "platform."@ + name,
            seq!["false"@],
            global,
            json,
            merge,
            document,
            number,
            read,
        ) == Err::<crate::settings::write::ChangeView, Seq<char>>(
            "config.platform.php cannot be disabled"@,
        ),
{
    let key = "platform."@ + name;
    reveal_strlit("platform.");
    reveal_strlit("php");
    assert(name.len() == 3) by {
        assert(ascii_lower(name).len() == name.len());
    }
    assert forall|i: int| 0 <= i < 9 implies key[i] == "platform."@[i] by {}
    lemma_not_prefixed(key);
    assert(after(key, 9) =~= name);
    assert(key.subrange(0, 9) =~= "platform."@);
    assert(without_prefix(key, "platform."@) == Some(name));
    let values = seq!["false"@];
    assert(single(values) == Ok::<Seq<char>, Seq<char>>("false"@));
}

proof fn lemma_not_prefixed(key: Seq<char>)
    requires
        key.len() == 12,
        key[0] == 'p',
        key[1] == 'l',
        key[8] == '.',
        forall|i: int| 0 <= i < 8 ==> key[i] != '.',
    ensures
        repository_of(key) is None,
        credentials_of(key) is None,
        !root_string(key),
        !root_list(key),
        !has_prefix(key, "extra."@),
        !has_prefix(key, "scripts."@),
        !has_prefix(key, "suggest."@),
        key != "minimum-stability"@,
        key != "prefer-stable"@,
{
    reveal_strlit("repositories");
    reveal_strlit("repository");
    reveal_strlit("repos");
    reveal_strlit("repo");
    reveal_strlit("name");
    reveal_strlit("type");
    reveal_strlit("description");
    reveal_strlit("homepage");
    reveal_strlit("version");
    reveal_strlit("keywords");
    reveal_strlit("license");
    reveal_strlit("extra.");
    reveal_strlit("scripts.");
    reveal_strlit("suggest.");
    reveal_strlit("minimum-stability");
    reveal_strlit("prefer-stable");
    assert(key.subrange(0, 12)[0] == 'p');
    assert(key.subrange(0, 10)[0] == 'p');
    assert(key.subrange(0, 5)[0] == 'p');
    assert(key.subrange(0, 4)[0] == 'p');
    assert(key.subrange(0, 6)[0] == 'p');
    assert(key.subrange(0, 8)[0] == 'p');
    lemma_find_from_unique(key, '.', 0, 8);
    let kind = before(key, 8);
    assert(kind[0] == 'p' && kind.len() == 8);
    reveal_strlit("bitbucket-oauth");
    reveal_strlit("github-oauth");
    reveal_strlit("gitlab-oauth");
    reveal_strlit("gitlab-token");
    reveal_strlit("http-basic");
    reveal_strlit("custom-headers");
    reveal_strlit("bearer");
    reveal_strlit("forgejo-token");
}

} // verus!
