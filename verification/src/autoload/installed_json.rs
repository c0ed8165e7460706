//! `vendor/composer/installed.json`: the installed packages, for other tools.
use vstd::prelude::*;
use vstd::string::*;

use crate::autoload::order::targets;
use crate::autoload::types::PackageAutoload;
use crate::json::{
    entries_view, items_view, lemma_array_view, lemma_entries_push, lemma_object_view, put, text,
    with_entry, Entries, Json, JsonView,
};
use crate::json_text::{pretty, print_pretty};
use crate::links::{link_count, link_entry, links, Pairs};
use crate::lock::opt;
use crate::lock_document::{entries_written, package_entries};
use crate::settings::values::{text_array, text_list};
use crate::sort::{sort_texts, texts_sorted};
use crate::text::{lemma_views_push, less, precedes, views};

verus! {

/// Links as a JSON object.
pub open spec fn links_object(s: Pairs) -> JsonView {
    JsonView::Object(
        s.map_values(|e: (Seq<char>, Seq<char>)| (e.0, JsonView::Text(e.1))),
    )
}

/// What is told of a package that came without an entry of the lock file.
pub open spec fn plain_entry(p: PackageAutoload) -> Entries {
    seq![
        ("name"@, JsonView::Text(p.name@)),
        (
            "version"@,
            JsonView::Text(
                match p.pretty_version {
                    Some(v) => v@,
                    None => "dev-main"@,
                },
            ),
        ),
        ("type"@, JsonView::Text(p.package_type@)),
        ("replace"@, links_object(links(p.replaces))),
        ("provide"@, links_object(links(p.provides))),
    ]
}

/// The version in its normal form: `normalized` where the version as written has
/// one, else the one that is known, else the version as written.
pub open spec fn normal_version(p: PackageAutoload, normalized: Option<Seq<char>>) -> Seq<char> {
    match (p.pretty_version, normalized) {
        (Some(_), Some(n)) => n,
        _ => match p.version {
            Some(v) => v@,
            None => match p.pretty_version {
                Some(v) => v@,
                None => "dev-main"@,
            },
        },
    }
}

/// What is told of an installed package: its entry of the lock file, where it came with one, and
/// where it stands.
pub open spec fn told(p: PackageAutoload, normalized: Option<Seq<char>>) -> JsonView {
    let o = match p.locked_package {
        Some(locked) => package_entries(locked),
        None => plain_entry(p),
    };
    let o = with_entry(
        o,
        "version_normalized"@,
        JsonView::Text(normal_version(p, normalized)),
    );
    let o = match p.installation_source {
        Some(s) => with_entry(o, "installation-source"@, JsonView::Text(s@)),
        None => o,
    };
    JsonView::Object(
        with_entry(
            o,
            "install-path"@,
            if p.without_files() {
                JsonView::Null
            } else {
                JsonView::Text("../"@ + p.install_path@)
            },
        ),
    )
}

/// The name in an entry.
pub open spec fn told_name(v: JsonView) -> Seq<char> {
    match v.field("name"@) {
        Some(JsonView::Text(t)) => t,
        _ => ""@,
    }
}

/// The entry put behind the last one whose name does not come after its own.
pub open spec fn told_inserted(s: Seq<JsonView>, x: JsonView) -> Seq<JsonView>
    decreases s.len(),
{
    if s.len() > 0 && precedes(told_name(x), told_name(s.last())) {
        told_inserted(s.drop_last(), x).push(s.last())
    } else {
        s.push(x)
    }
}

/// The entries of the first `n` packages, in the order of their names.
pub open spec fn told_of(packages: Seq<PackageAutoload>, normalized: Seq<Option<String>>, n: int) -> Seq<
    JsonView,
>
    decreases n,
{
    if n <= 0 || n > packages.len() {
        Seq::empty()
    } else {
        told_inserted(
            told_of(packages, normalized, n - 1),
            told(packages[n - 1], opt(normalized[n - 1])),
        )
    }
}

/// The names of those among the first `n` packages that are for development.
pub open spec fn dev_names(packages: Seq<PackageAutoload>, n: int) -> Seq<Seq<char>>
    decreases n,
{
    if n <= 0 || n > packages.len() {
        Seq::empty()
    } else if packages[n - 1].dev_requirement {
        dev_names(packages, n - 1).push(packages[n - 1].name@)
    } else {
        dev_names(packages, n - 1)
    }
}

/// The whole document. `normalized` holds the versions in normal form, where they have one;
/// `dev_mode` is what is known of the project.
pub open spec fn installed_document(
    packages: Seq<PackageAutoload>,
    normalized: Seq<Option<String>>,
    dev_mode: Option<bool>,
) -> JsonView {
    let names = texts_sorted(dev_names(packages, packages.len() as int));
    JsonView::Object(
        seq![
            ("packages"@, JsonView::Array(told_of(packages, normalized, packages.len() as int))),
            (
                "dev"@,
                JsonView::Bool(
                    match dev_mode {
                        Some(b) => b,
                        None => names.len() > 0,
                    },
                ),
            ),
            ("dev-package-names"@, text_list(names)),
        ],
    )
}

pub fn object_of_links(m: &indexmap::IndexMap<String, String>) -> (r: Json)
    ensures
        r@ == links_object(links(*m)),
{
    let ghost want = links_object(links(*m))->Object_0;
    let n: usize = link_count(m);
    let mut out: Vec<(String, Json)> = Vec::new();
    let mut i: usize = 0;
    while i < n
        invariant
            i <= n == links(*m).len(),
            want == links_object(links(*m))->Object_0,
            entries_view(out@) == want.take(i as int),
        decreases n - i,
    {
        if let Some((name, value)) = link_entry(m, i) {
            let one = (name.to_owned(), text(value));
            proof {
                lemma_entries_push(out@, one);
            }
            out.push(one);
        }
        i += 1;
        assert(entries_view(out@) =~= want.take(i as int));
    }
    proof {
        assert(entries_view(out@) =~= want);
        lemma_object_view(out);
    }
    Json::Object(out)
}

fn plain(p: &PackageAutoload) -> (r: Vec<(String, Json)>)
    ensures
        entries_view(r@) == plain_entry(*p),
{
    let mut out: Vec<(String, Json)> = Vec::new();
    out.push(("name".to_owned(), text(p.name.as_str())));
    let version = match &p.pretty_version {
        Some(v) => text(v.as_str()),
        None => text("dev-main"),
    };
    out.push(("version".to_owned(), version));
    out.push(("type".to_owned(), text(p.package_type.as_str())));
    out.push(("replace".to_owned(), object_of_links(&p.replaces)));
    out.push(("provide".to_owned(), object_of_links(&p.provides)));
    assert(entries_view(out@) =~= plain_entry(*p));
    out
}

fn normal_version_of(p: &PackageAutoload, normalized: &Option<String>) -> (r: String)
    ensures
        r@ == normal_version(*p, opt(*normalized)),
{
    if let (Some(_), Some(n)) = (&p.pretty_version, normalized) {
        return n.clone();
    }
    match &p.version {
        Some(v) => v.clone(),
        None => match &p.pretty_version {
            Some(v) => v.clone(),
            None => "dev-main".to_owned(),
        },
    }
}

fn tell(p: &PackageAutoload, normalized: &Option<String>) -> (r: Json)
    ensures
        r@ == told(*p, opt(*normalized)),
{
    let mut o = match &p.locked_package {
        Some(locked) => entries_written(locked),
        None => plain(p),
    };
    put(&mut o, "version_normalized", Json::Text(normal_version_of(p, normalized)));
    if let Some(s) = &p.installation_source {
        put(&mut o, "installation-source", text(s.as_str()));
    }
    let place = if p.is_metapackage() {
        Json::Null
    } else {
        Json::Text("../".to_owned().concat(p.install_path.as_str()))
    };
    put(&mut o, "install-path", place);
    proof {
        lemma_object_view(o);
    }
    Json::Object(o)
}

fn name_in(v: &Json) -> (r: &str)
    ensures
        r@ == told_name(v@),
{
    match v.get("name") {
        Some(Json::Text(t)) => t.as_str(),
        _ => "",
    }
}

fn insert_told(v: &mut Vec<Json>, x: Json)
    ensures
        items_view(final(v)@) == told_inserted(items_view(old(v)@), x@),
{
    let ghost s = items_view(v@);
    let mut at: usize = v.len();
    assert(s.take(at as int) =~= s);
    assert(told_inserted(s.take(at as int), x@) + s.skip(at as int) =~= told_inserted(s, x@));
    while at > 0 && less(name_in(&x), name_in(&v[at - 1]))
        invariant
            at <= v.len(),
            s == items_view(v@),
            told_inserted(s.take(at as int), x@) + s.skip(at as int) == told_inserted(s, x@),
        decreases at,
    {
        proof {
            let head = s.take(at as int);
            assert(head.last() == v@[at - 1]@);
            assert(head.drop_last() =~= s.take(at - 1));
            assert(told_inserted(s.take(at - 1), x@).push(s[at - 1]) + s.skip(at as int)
                =~= told_inserted(s.take(at - 1), x@) + s.skip(at - 1));
        }
        at -= 1;
    }
    proof {
        let head = s.take(at as int);
        if at > 0 {
            assert(head.last() == v@[at - 1]@);
        }
        assert(told_inserted(head, x@) == head.push(x@));
    }
    v.insert(at, x);
    assert(items_view(v@) =~= s.take(at as int).push(x@) + s.skip(at as int));
}

/// The document that tells what is installed.
pub fn installed_packages(
    packages: &[&PackageAutoload],
    normalized: &[Option<String>],
    dev_mode: Option<bool>,
) -> (r: Json)
    requires
        packages.len() == normalized.len(),
    ensures
        r@ == installed_document(targets(packages@), normalized@, dev_mode),
{
    let ghost all = targets(packages@);
    let mut entries: Vec<Json> = Vec::new();
    let mut names: Vec<String> = Vec::new();
    let mut i: usize = 0;
    assert(items_view(entries@) =~= told_of(all, normalized@, 0));
    assert(views(names@) =~= dev_names(all, 0));
    while i < packages.len()
        invariant
            i <= packages.len(),
            packages.len() == normalized.len(),
            all == targets(packages@),
            items_view(entries@) == told_of(all, normalized@, i as int),
            views(names@) == dev_names(all, i as int),
        decreases packages.len() - i,
    {
        assert(all[i as int] == *packages@[i as int]);
        insert_told(&mut entries, tell(packages[i], &normalized[i]));
        if packages[i].dev_requirement {
            let one = packages[i].name.clone();
            proof {
                lemma_views_push(names@, one);
            }
            names.push(one);
        }
        i += 1;
    }
    let names = sort_texts(&names);
    assert(views(names@).len() == names.len());
    let dev = match dev_mode {
        Some(b) => b,
        None => names.len() > 0,
    };
    let mut out: Vec<(String, Json)> = Vec::new();
    proof {
        lemma_array_view(entries);
    }
    out.push(("packages".to_owned(), Json::Array(entries)));
    out.push(("dev".to_owned(), Json::Bool(dev)));
    out.push(("dev-package-names".to_owned(), text_array(names.as_slice())));
    proof {
        assert(entries_view(out@) =~= installed_document(all, normalized@, dev_mode)->Object_0);
        lemma_object_view(out);
    }
    Json::Object(out)
}

/// `vendor/composer/installed.json`.
pub fn generate_installed_json(
    packages: &[&PackageAutoload],
    normalized: &[Option<String>],
    dev_mode: Option<bool>,
) -> (r: String)
    requires
        packages.len() == normalized.len(),
    ensures
        r@ == pretty(installed_document(targets(packages@), normalized@, dev_mode)).push('\n'),
{
    let document = installed_packages(packages, normalized, dev_mode);
    let mut out = print_pretty(&document);
    out.push('\n');
    out
}

} // verus!
