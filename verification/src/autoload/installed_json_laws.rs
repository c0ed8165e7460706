//! What holds of the list of installed packages: every package is in it, with all that is known.
use vstd::prelude::*;

use crate::autoload::installed_json::{
    dev_names, installed_document, plain_entry, told, told_inserted, told_name, told_of,
};
use crate::autoload::types::PackageAutoload;
use crate::holding::lemma_one_more;
use crate::json::{lemma_key_at_unique, lemma_with_entry, value_of, with_entry, JsonView};
use crate::lock::opt;
use crate::lock_document::package_entries;
use crate::settings::values::text_list;
use crate::sort::{lemma_texts_sorted_hold, texts_sorted};
use crate::text::precedes;

verus! {

proof fn lemma_told_inserted(s: Seq<JsonView>, x: JsonView, e: JsonView)
    ensures
        told_inserted(s, x).contains(e) <==> s.contains(e) || e == x,
        told_inserted(s, x).len() == s.len() + 1,
    decreases s.len(),
{
    if s.len() > 0 && precedes(told_name(x), told_name(s.last())) {
        lemma_told_inserted(s.drop_last(), x, e);
        assert(s =~= s.drop_last().push(s.last()));
        lemma_one_more(s.drop_last(), s.last(), e);
        lemma_one_more(told_inserted(s.drop_last(), x), s.last(), e);
    } else {
        lemma_one_more(s, x, e);
    }
}

proof fn lemma_told_of(
    packages: Seq<PackageAutoload>,
    normalized: Seq<Option<String>>,
    n: int,
    e: JsonView,
)
    requires
        0 <= n <= packages.len(),
    ensures
        told_of(packages, normalized, n).contains(e) <==> exists|i: int|
            0 <= i < n && told(#[trigger] packages[i], opt(normalized[i])) == e,
        told_of(packages, normalized, n).len() == n,
    decreases n,
{
    if n > 0 {
        lemma_told_of(packages, normalized, n - 1, e);
        lemma_told_inserted(
            told_of(packages, normalized, n - 1),
            told(packages[n - 1], opt(normalized[n - 1])),
            e,
        );
    }
}

proof fn lemma_dev_names(packages: Seq<PackageAutoload>, n: int, name: Seq<char>)
    requires
        0 <= n <= packages.len(),
    ensures
        dev_names(packages, n).contains(name) <==> exists|i: int|
            0 <= i < n && (#[trigger] packages[i]).name@ == name && packages[i].dev_requirement,
    decreases n,
{
    if n > 0 {
        lemma_dev_names(packages, n - 1, name);
        lemma_one_more(dev_names(packages, n - 1), packages[n - 1].name@, name);
    }
}

proof fn lemma_sections(packages: JsonView, dev: JsonView, names: JsonView)
    ensures
        ({
            let o = seq![("packages"@, packages), ("dev"@, dev), ("dev-package-names"@, names)];
            &&& value_of(o, "packages"@) == Some(packages)
            &&& value_of(o, "dev"@) == Some(dev)
            &&& value_of(o, "dev-package-names"@) == Some(names)
        }),
{
    reveal_strlit("packages");
    reveal_strlit("dev");
    reveal_strlit("dev-package-names");
    let o = seq![("packages"@, packages), ("dev"@, dev), ("dev-package-names"@, names)];
    assert("packages"@.len() == 8 && "dev"@.len() == 3 && "dev-package-names"@.len() == 17);
    assert(o[0].0 == "packages"@ && o[1].0 == "dev"@ && o[2].0 == "dev-package-names"@);
    lemma_key_at_unique(o, "packages"@, 0);
    lemma_key_at_unique(o, "dev"@, 1);
    lemma_key_at_unique(o, "dev-package-names"@, 2);
}

/// The list has an entry for every package and no other, names every package for development and
/// no other, and tells the mode of the project where that is known.
pub proof fn law_every_package_is_listed(
    packages: Seq<PackageAutoload>,
    normalized: Seq<Option<String>>,
    dev_mode: Option<bool>,
    e: JsonView,
    name: Seq<char>,
)
    ensures
        installed_document(packages, normalized, dev_mode).field("packages"@)
            matches Some(JsonView::Array(items)) && (items.contains(e) <==> exists|i: int|
            0 <= i < packages.len() && told(#[trigger] packages[i], opt(normalized[i])) == e)
            && items.len() == packages.len(),
        exists|names: Seq<Seq<char>>|
            installed_document(packages, normalized, dev_mode).field("dev-package-names"@) == Some(
                #[trigger] text_list(names),
            ) && (names.contains(name) <==> exists|i: int|
                0 <= i < packages.len() && (#[trigger] packages[i]).name@ == name
                    && packages[i].dev_requirement),
        dev_mode matches Some(b) ==> installed_document(packages, normalized, dev_mode).field(
            "dev"@,
        ) == Some(JsonView::Bool(b)),
{
    let n = packages.len() as int;
    let names = texts_sorted(dev_names(packages, n));
    let items = told_of(packages, normalized, n);
    let dev = match dev_mode {
        Some(b) => b,
        None => names.len() > 0,
    };
    lemma_sections(JsonView::Array(items), JsonView::Bool(dev), text_list(names));
    let o = seq![
        ("packages"@, JsonView::Array(items)),
        ("dev"@, JsonView::Bool(dev)),
        ("dev-package-names"@, text_list(names)),
    ];
    let document = installed_document(packages, normalized, dev_mode);
    assert(document->Object_0 =~= o);
    assert(document == JsonView::Object(o));
    assert(document.field("packages"@) == value_of(o, "packages"@));
    assert(document.field("dev"@) == value_of(o, "dev"@));
    assert(document.field("dev-package-names"@) == value_of(o, "dev-package-names"@));
    lemma_told_of(packages, normalized, n, e);
    lemma_dev_names(packages, n, name);
    lemma_texts_sorted_hold(dev_names(packages, n), name);
    assert(installed_document(packages, normalized, dev_mode).field("dev-package-names"@) == Some(
        text_list(names),
    ));
}

/// An entry tells where the package is, how it came and its version in normal form; all else that
/// the lock file has of it stays.
pub proof fn law_entry_tells_what_is_locked(
    p: PackageAutoload,
    normalized: Option<Seq<char>>,
    key: Seq<char>,
)
    ensures
        told(p, normalized).field("install-path"@) == Some(
            if p.package_type@ == "metapackage"@ {
                JsonView::Null
            } else {
                JsonView::Text("../"@ + p.install_path@)
            },
        ),
        p.installation_source matches Some(s) ==> told(p, normalized).field("installation-source"@)
            == Some(JsonView::Text(s@)),
        p.pretty_version is Some ==> (normalized matches Some(n) ==> told(p, normalized).field(
            "version_normalized"@,
        ) == Some(JsonView::Text(n))),
        normalized is None ==> (p.version matches Some(v) ==> told(p, normalized).field(
            "version_normalized"@,
        ) == Some(JsonView::Text(v@))),
        key != "install-path"@ && key != "installation-source"@ && key != "version_normalized"@
            ==> told(p, normalized).field(key) == match p.locked_package {
            Some(locked) => value_of(package_entries(locked), key),
            None => value_of(plain_entry(p), key),
        },
{
    reveal_strlit("install-path");
    reveal_strlit("installation-source");
    reveal_strlit("version_normalized");
    assert("install-path"@.len() == 12 && "installation-source"@.len() == 19
        && "version_normalized"@.len() == 18);
    let o = match p.locked_package {
        Some(locked) => package_entries(locked),
        None => plain_entry(p),
    };
    let a = JsonView::Text(crate::autoload::installed_json::normal_version(p, normalized));
    let o1 = with_entry(o, "version_normalized"@, a);
    let o2 = match p.installation_source {
        Some(s) => with_entry(o1, "installation-source"@, JsonView::Text(s@)),
        None => o1,
    };
    let c = if p.without_files() {
        JsonView::Null
    } else {
        JsonView::Text("../"@ + p.install_path@)
    };
    lemma_with_entry(o, "version_normalized"@, a, "version_normalized"@);
    lemma_with_entry(o, "version_normalized"@, a, key);
    if let Some(s) = p.installation_source {
        lemma_with_entry(o1, "installation-source"@, JsonView::Text(s@), "installation-source"@);
        lemma_with_entry(o1, "installation-source"@, JsonView::Text(s@), "version_normalized"@);
        lemma_with_entry(o1, "installation-source"@, JsonView::Text(s@), key);
    }
    lemma_with_entry(o2, "install-path"@, c, "install-path"@);
    lemma_with_entry(o2, "install-path"@, c, "installation-source"@);
    lemma_with_entry(o2, "install-path"@, c, "version_normalized"@);
    lemma_with_entry(o2, "install-path"@, c, key);
}

} // verus!
