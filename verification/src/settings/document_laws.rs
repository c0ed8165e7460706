//! What holds of the documents of the configuration: what a file, the credentials and the
//! environment bring is in force.
use vstd::prelude::*;

use crate::holding::lemma_one_more;
use crate::json::{
    at_path, lemma_with_entry, lemma_without_key, merged, value_of, without_key, Entries, JsonView,
};
use crate::json_laws::{diverge, law_read_after_write, law_write_keeps_the_rest};
use crate::settings::documents::{
    completed_list, config_bool, credentials_merged, environment_applied, number_or_text, numbered,
    or_empty, overridden, packagist, packagist_ensured, root_replaced, switch, transport_settled,
    Environment, State,
};

verus! {

proof fn lemma_replaced(s: State, o: Entries, n: int, source: Seq<char>, key: Seq<char>)
    requires
        0 <= n <= o.len(),
        key != "config"@,
        key != "repositories"@,
    ensures
        forall|k: int|
            0 <= k < n && (#[trigger] o[k]).0 == key && (forall|j: int|
                k < j < n ==> (#[trigger] o[j]).0 != key) ==> value_of(
                root_replaced(s, o, n, source).value,
                key,
            ) == Some(o[k].1),
        (forall|k: int| 0 <= k < n ==> (#[trigger] o[k]).0 != key) ==> value_of(
            root_replaced(s, o, n, source).value,
            key,
        ) == value_of(s.value, key),
    decreases n,
{
    if n > 0 {
        lemma_replaced(s, o, n - 1, source, key);
        let t = root_replaced(s, o, n - 1, source);
        lemma_with_entry(t.value, o[n - 1].0, o[n - 1].1, key);
    }
}

/// What a file says at the top, but for the settings and the repositories, takes the place of what
/// was there; what it does not name stays.
pub proof fn law_file_replaces_what_it_names(
    s: State,
    o: Entries,
    source: Seq<char>,
    key: Seq<char>,
)
    requires
        key != "config"@,
        key != "repositories"@,
    ensures
        forall|k: int|
            0 <= k < o.len() && (#[trigger] o[k]).0 == key && (forall|j: int|
                k < j < o.len() ==> (#[trigger] o[j]).0 != key) ==> value_of(
                root_replaced(s, o, o.len() as int, source).value,
                key,
            ) == Some(o[k].1),
        (forall|k: int| 0 <= k < o.len() ==> (#[trigger] o[k]).0 != key) ==> value_of(
            root_replaced(s, o, o.len() as int, source).value,
            key,
        ) == value_of(s.value, key),
{
    lemma_replaced(s, o, o.len() as int, source, key);
}

proof fn lemma_credentials(config: Entries, o: Entries, n: int, key: Seq<char>)
    requires
        0 <= n <= o.len(),
    ensures
        forall|k: int|
            0 <= k < n && (#[trigger] o[k]).0 == key && (forall|j: int|
                0 <= j < n && j != k ==> (#[trigger] o[j]).0 != key) ==> value_of(
                credentials_merged(config, o, n),
                key,
            ) == Some(merged(or_empty(config, key), o[k].1)),
        (forall|k: int| 0 <= k < n ==> (#[trigger] o[k]).0 != key) ==> value_of(
            credentials_merged(config, o, n),
            key,
        ) == value_of(config, key),
    decreases n,
{
    if n > 0 {
        lemma_credentials(config, o, n - 1, key);
        let t = credentials_merged(config, o, n - 1);
        let v = merged(or_empty(t, o[n - 1].0), o[n - 1].1);
        lemma_with_entry(t, o[n - 1].0, v, key);
    }
}

/// Every kind of credentials that a file has is laid over what is configured of that kind; the
/// others stay.
pub proof fn law_credentials_are_laid_over(config: Entries, o: Entries, key: Seq<char>)
    ensures
        forall|k: int|
            0 <= k < o.len() && (#[trigger] o[k]).0 == key && (forall|j: int|
                0 <= j < o.len() && j != k ==> (#[trigger] o[j]).0 != key) ==> value_of(
                credentials_merged(config, o, o.len() as int),
                key,
            ) == Some(merged(or_empty(config, key), o[k].1)),
        (forall|k: int| 0 <= k < o.len() ==> (#[trigger] o[k]).0 != key) ==> value_of(
            credentials_merged(config, o, o.len() as int),
            key,
        ) == value_of(config, key),
{
    lemma_credentials(config, o, o.len() as int, key);
}

/// The entry switches the public repository off.
pub open spec fn is_off(r: JsonView) -> bool {
    r.field("packagist.org"@) == Some(JsonView::Bool(false))
}

proof fn lemma_numbered(list: Seq<JsonView>, n: int, r: JsonView)
    requires
        0 <= n <= list.len(),
    ensures
        (exists|i: int| 0 <= i < numbered(list, n).len() && (#[trigger] numbered(list, n)[i]).1 == r)
            <==> exists|i: int| 0 <= i < n && #[trigger] list[i] == r && !is_off(r),
    decreases n,
{
    if n > 0 {
        lemma_numbered(list, n - 1, r);
        let t = numbered(list, n - 1);
        let u = numbered(list, n);
        if exists|i: int| 0 <= i < t.len() && (#[trigger] t[i]).1 == r {
            let i = choose|i: int| 0 <= i < t.len() && (#[trigger] t[i]).1 == r;
            assert(u[i] == t[i]);
        }
        if list[n - 1] == r && !is_off(r) {
            assert(u[t.len() as int].1 == r);
        }
        if exists|i: int| 0 <= i < u.len() && (#[trigger] u[i]).1 == r {
            let i = choose|i: int| 0 <= i < u.len() && (#[trigger] u[i]).1 == r;
            if i < t.len() {
                assert(t[i] == u[i]);
            } else {
                assert(list[n - 1] == r);
            }
        }
    }
}

/// Every repository of a list is used but for those that only switch the public one off, and the
/// public one is added unless the list switches it off or has it.
pub proof fn law_every_listed_repository_is_used(list: Seq<JsonView>, r: JsonView)
    ensures
        list.contains(r) && !is_off(r) ==> exists|i: int|
            0 <= i < completed_list(list).len() && (#[trigger] completed_list(list)[i]).1 == r,
        (forall|i: int|
            0 <= i < list.len() ==> !is_off(#[trigger] list[i]) && list[i].field("name"@) != Some(
                JsonView::Text("packagist.org"@),
            )) ==> completed_list(list).contains(("packagist.org"@, packagist())),
        (exists|i: int| 0 <= i < list.len() && is_off(#[trigger] list[i]))
            ==> completed_list(list) == numbered(list, list.len() as int),
{
    let o = numbered(list, list.len() as int);
    let c = completed_list(list);
    lemma_numbered(list, list.len() as int, r);
    if list.contains(r) && !is_off(r) {
        let k = choose|k: int| 0 <= k < list.len() && list[k] == r;
        assert(list[k] == r);
        let i = choose|i: int| 0 <= i < o.len() && (#[trigger] o[i]).1 == r;
        assert(c[i] == o[i]);
    }
    if forall|i: int|
        0 <= i < list.len() ==> !is_off(#[trigger] list[i]) && list[i].field("name"@) != Some(
            JsonView::Text("packagist.org"@),
        ) {
        assert(c[o.len() as int] == ("packagist.org"@, packagist()));
    }
}

/// Repositories by name keep their entries, but for the public one where it is switched off.
pub proof fn law_named_repositories_stay(s: State, o: Entries, key: Seq<char>)
    requires
        value_of(s.value, "repositories"@) == Some(JsonView::Object(o)),
        crate::json::keys_differ(o),
    ensures
        value_of(packagist_ensured(s).value, "repositories"@) matches Some(JsonView::Object(p)) && {
            &&& key != "packagist.org"@ ==> value_of(p, key) == value_of(o, key)
            &&& value_of(o, "packagist.org"@) == Some(JsonView::Bool(false)) ==> value_of(
                p,
                "packagist.org"@,
            ) is None
            &&& value_of(o, "packagist.org"@) != Some(JsonView::Bool(false)) ==> p == o
        },
{
    lemma_with_entry(
        s.value,
        "repositories"@,
        JsonView::Object(without_key(o, "packagist.org"@)),
        "repositories"@,
    );
    lemma_with_entry(s.value, "repositories"@, JsonView::Object(o), "repositories"@);
    lemma_without_key(o, "packagist.org"@, key);
    lemma_without_key(o, "packagist.org"@, "packagist.org"@);
}

proof fn lemma_apart(a: Seq<char>, b: Seq<char>)
    requires
        a != b,
    ensures
        diverge(seq!["config"@, a], seq!["config"@, b]),
{
    let p = seq!["config"@, a];
    let q = seq!["config"@, b];
    assert(p.drop_first() =~= seq![a]);
    assert(q.drop_first() =~= seq![b]);
    reveal_with_fuel(diverge, 3);
}

proof fn lemma_override(
    s: State,
    raw: Option<String>,
    key: Seq<char>,
    variable: Seq<char>,
    read: spec_fn(Seq<char>) -> JsonView,
    other: Seq<char>,
)
    ensures
        other != key ==> at_path(
            JsonView::Object(overridden(s, raw, key, variable, read).value),
            seq!["config"@, other],
        ) == at_path(JsonView::Object(s.value), seq!["config"@, other]),
        raw matches Some(t) && t@.len() > 0 ==> at_path(
            JsonView::Object(overridden(s, raw, key, variable, read).value),
            seq!["config"@, key],
        ) == Some(read(raw->0@)),
        raw is None || raw->0@.len() == 0 ==> overridden(s, raw, key, variable, read) == s,
{
    if raw is Some && raw->0@.len() > 0 {
        let v = JsonView::Object(s.value);
        law_read_after_write(v, seq!["config"@, key], read(raw->0@));
        if other != key {
            lemma_apart(key, other);
            law_write_keeps_the_rest(v, seq!["config"@, key], read(raw->0@), seq!["config"@, other]);
        }
    }
}

proof fn lemma_variables_differ()
    ensures
        "process-timeout"@ != "vendor-dir"@ && "process-timeout"@ != "bin-dir"@,
        "process-timeout"@ != "cache-dir"@ && "process-timeout"@ != "discard-changes"@,
        "process-timeout"@ != "cache-read-only"@ && "vendor-dir"@ != "bin-dir"@,
        "vendor-dir"@ != "cache-dir"@ && "vendor-dir"@ != "discard-changes"@,
        "vendor-dir"@ != "cache-read-only"@ && "bin-dir"@ != "cache-dir"@,
        "bin-dir"@ != "discard-changes"@ && "bin-dir"@ != "cache-read-only"@,
        "cache-dir"@ != "discard-changes"@ && "cache-dir"@ != "cache-read-only"@,
        "discard-changes"@ != "cache-read-only"@,
{
    reveal_strlit("process-timeout");
    reveal_strlit("vendor-dir");
    reveal_strlit("bin-dir");
    reveal_strlit("cache-dir");
    reveal_strlit("discard-changes");
    reveal_strlit("cache-read-only");
    assert("vendor-dir"@.len() == 10 && "bin-dir"@.len() == 7 && "cache-dir"@.len() == 9);
    assert("process-timeout"@.len() == 15 && "discard-changes"@.len() == 15
        && "cache-read-only"@.len() == 15);
    assert("process-timeout"@[0] == 'p' && "discard-changes"@[0] == 'd' && "cache-read-only"@[0]
        == 'c');
}

/// Every variable of the environment that is set and not empty decides its own setting, and a
/// setting that no variable is for stays.
pub proof fn law_every_variable_decides_its_setting(s: State, e: Environment, other: Seq<char>)
    ensures
        ({
            let v = JsonView::Object(environment_applied(s, e).value);
            let set = |raw: Option<String>| raw is Some && raw->0@.len() > 0;
            &&& set(e.process_timeout) ==> at_path(v, seq!["config"@, "process-timeout"@]) == Some(
                number_or_text(e.process_timeout->0@),
            )
            &&& set(e.vendor_dir) ==> at_path(v, seq!["config"@, "vendor-dir"@]) == Some(
                JsonView::Text(e.vendor_dir->0@),
            )
            &&& set(e.bin_dir) ==> at_path(v, seq!["config"@, "bin-dir"@]) == Some(
                JsonView::Text(e.bin_dir->0@),
            )
            &&& set(e.cache_dir) ==> at_path(v, seq!["config"@, "cache-dir"@]) == Some(
                JsonView::Text(e.cache_dir->0@),
            )
            &&& set(e.discard_changes) ==> at_path(v, seq!["config"@, "discard-changes"@]) == Some(
                JsonView::Text(e.discard_changes->0@),
            )
            &&& set(e.cache_read_only) ==> at_path(v, seq!["config"@, "cache-read-only"@]) == Some(
                JsonView::Bool(
                    e.cache_read_only->0@ != "0"@ && e.cache_read_only->0@ != "false"@,
                ),
            )
            &&& other != "process-timeout"@ && other != "vendor-dir"@ && other != "bin-dir"@ && other
                != "cache-dir"@ && other != "discard-changes"@ && other != "cache-read-only"@
                ==> at_path(v, seq!["config"@, other]) == at_path(
                JsonView::Object(s.value),
                seq!["config"@, other],
            )
        }),
{
    lemma_variables_differ();
    let plain = |t: Seq<char>| JsonView::Text(t);
    let number = |t: Seq<char>| number_or_text(t);
    let on = |t: Seq<char>| switch(t);
    let k1 = "process-timeout"@;
    let k2 = "vendor-dir"@;
    let k3 = "bin-dir"@;
    let k4 = "cache-dir"@;
    let k5 = "discard-changes"@;
    let k6 = "cache-read-only"@;
    let s1 = overridden(s, e.process_timeout, k1, "COMPOSER_PROCESS_TIMEOUT"@, number);
    let s2 = overridden(s1, e.vendor_dir, k2, "COMPOSER_VENDOR_DIR"@, plain);
    let s3 = overridden(s2, e.bin_dir, k3, "COMPOSER_BIN_DIR"@, plain);
    let s4 = overridden(s3, e.cache_dir, k4, "COMPOSER_CACHE_DIR"@, plain);
    let s5 = overridden(s4, e.discard_changes, k5, "COMPOSER_DISCARD_CHANGES"@, plain);
    let s6 = overridden(s5, e.cache_read_only, k6, "COMPOSER_CACHE_READ_ONLY"@, on);
    assert(environment_applied(s, e) == s6);
    lemma_override(s, e.process_timeout, k1, "COMPOSER_PROCESS_TIMEOUT"@, number, k1);
    lemma_override(s1, e.vendor_dir, k2, "COMPOSER_VENDOR_DIR"@, plain, k1);
    lemma_override(s2, e.bin_dir, k3, "COMPOSER_BIN_DIR"@, plain, k1);
    lemma_override(s3, e.cache_dir, k4, "COMPOSER_CACHE_DIR"@, plain, k1);
    lemma_override(s4, e.discard_changes, k5, "COMPOSER_DISCARD_CHANGES"@, plain, k1);
    lemma_override(s5, e.cache_read_only, k6, "COMPOSER_CACHE_READ_ONLY"@, on, k1);
    lemma_override(s1, e.vendor_dir, k2, "COMPOSER_VENDOR_DIR"@, plain, k2);
    lemma_override(s2, e.bin_dir, k3, "COMPOSER_BIN_DIR"@, plain, k2);
    lemma_override(s3, e.cache_dir, k4, "COMPOSER_CACHE_DIR"@, plain, k2);
    lemma_override(s4, e.discard_changes, k5, "COMPOSER_DISCARD_CHANGES"@, plain, k2);
    lemma_override(s5, e.cache_read_only, k6, "COMPOSER_CACHE_READ_ONLY"@, on, k2);
    lemma_override(s2, e.bin_dir, k3, "COMPOSER_BIN_DIR"@, plain, k3);
    lemma_override(s3, e.cache_dir, k4, "COMPOSER_CACHE_DIR"@, plain, k3);
    lemma_override(s4, e.discard_changes, k5, "COMPOSER_DISCARD_CHANGES"@, plain, k3);
    lemma_override(s5, e.cache_read_only, k6, "COMPOSER_CACHE_READ_ONLY"@, on, k3);
    lemma_override(s3, e.cache_dir, k4, "COMPOSER_CACHE_DIR"@, plain, k4);
    lemma_override(s4, e.discard_changes, k5, "COMPOSER_DISCARD_CHANGES"@, plain, k4);
    lemma_override(s5, e.cache_read_only, k6, "COMPOSER_CACHE_READ_ONLY"@, on, k4);
    lemma_override(s4, e.discard_changes, k5, "COMPOSER_DISCARD_CHANGES"@, plain, k5);
    lemma_override(s5, e.cache_read_only, k6, "COMPOSER_CACHE_READ_ONLY"@, on, k5);
    lemma_override(s5, e.cache_read_only, k6, "COMPOSER_CACHE_READ_ONLY"@, on, k6);
    lemma_override(s, e.process_timeout, k1, "COMPOSER_PROCESS_TIMEOUT"@, number, other);
    lemma_override(s1, e.vendor_dir, k2, "COMPOSER_VENDOR_DIR"@, plain, other);
    lemma_override(s2, e.bin_dir, k3, "COMPOSER_BIN_DIR"@, plain, other);
    lemma_override(s3, e.cache_dir, k4, "COMPOSER_CACHE_DIR"@, plain, other);
    lemma_override(s4, e.discard_changes, k5, "COMPOSER_DISCARD_CHANGES"@, plain, other);
    lemma_override(s5, e.cache_read_only, k6, "COMPOSER_CACHE_READ_ONLY"@, on, other);
}

/// Without TLS, secure HTTP is off. Where secure HTTP is off and TLS is not, the `git` protocol is
/// among those for GitHub, beside all that were. Where neither is so, nothing changes.
pub proof fn law_transport_is_settled(o: Entries, list: Seq<JsonView>, p: JsonView)
    ensures
        config_bool(o, "disable-tls"@) == Some(true) ==> at_path(
            JsonView::Object(transport_settled(o)),
            seq!["config"@, "secure-http"@],
        ) == Some(JsonView::Bool(false)),
        config_bool(o, "disable-tls"@) != Some(true) && config_bool(o, "secure-http"@) == Some(false)
            && at_path(JsonView::Object(o), seq!["config"@, "github-protocols"@]) == Some(
            JsonView::Array(list),
        ) ==> (at_path(
            JsonView::Object(transport_settled(o)),
            seq!["config"@, "github-protocols"@],
        ) matches Some(JsonView::Array(l)) && (l.contains(p) <==> list.contains(p) || p
            == JsonView::Text("git"@))),
        config_bool(o, "disable-tls"@) != Some(true) && config_bool(o, "secure-http"@) != Some(false)
            ==> transport_settled(o) == o,
{
    let v = JsonView::Object(o);
    law_read_after_write(v, seq!["config"@, "secure-http"@], JsonView::Bool(false));
    let more = JsonView::Array(list.push(JsonView::Text("git"@)));
    law_read_after_write(v, seq!["config"@, "github-protocols"@], more);
    lemma_one_more(list, JsonView::Text("git"@), p);
}

} // verus!
