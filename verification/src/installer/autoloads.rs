//! Locked packages and the project as the generator of the loader takes them.
use vstd::prelude::*;
use vstd::string::*;

use indexmap::IndexMap;

use crate::autoload::collect::{
    add_directories, dir_names, directories, with_directories, Directories,
};
use crate::autoload::types::{
    namespace_count, namespace_entry, namespace_list, namespace_map, namespaces, namespaces_differ,
    Autoload, AutoloadPath, PackageAutoload, RootPackageInfo,
};
use crate::installer::selection::{aliases_of, aliases_under};
use crate::json::{entries_view, items_view, lemma_array_view, Entries, Json, JsonView};
use crate::links::{copy_links, link_count, link_entry, links, Pairs};
use crate::lock::{
    copy_option, copy_strings, opt, same_locked, ComposerLock, LockAlias, LockAutoload, LockedPackage,
};
use crate::named_values::{entries_of, named_values};
use crate::names::{is_platform_package, platform};
use crate::package::{dev_version, is_dev_version};
use crate::schema::ComposerJson;
use crate::sorted::{ascending, is_present, lemma_ascending, lemma_place, place};
use crate::text::{lemma_precedes_total, lemma_views_push, views};

verus! {

// ---------------------------------------------------------------------------
// Directories
// ---------------------------------------------------------------------------
/// The texts among the first `n` values.
pub open spec fn texts_in(items: Seq<JsonView>, n: int) -> Seq<Seq<char>>
    decreases n,
{
    if n <= 0 || n > items.len() {
        Seq::empty()
    } else {
        match items[n - 1] {
            JsonView::Text(t) => texts_in(items, n - 1).push(t),
            _ => texts_in(items, n - 1),
        }
    }
}

/// The directories that a value names: one for a text, several for a list of texts.
pub open spec fn directories_in(v: JsonView) -> Seq<Seq<char>> {
    match v {
        JsonView::Text(t) => seq![t],
        JsonView::Array(items) => texts_in(items, items.len() as int),
        _ => Seq::empty(),
    }
}

fn path_of(v: &Json) -> (r: AutoloadPath)
    ensures
        r@ == directories_in(v@),
{
    match v {
        Json::Text(t) => AutoloadPath::Single(t.clone()),
        Json::Array(items) => {
            proof {
                lemma_array_view(*items);
            }
            let ghost all = items_view(items@);
            let mut out: Vec<String> = Vec::new();
            let mut i: usize = 0;
            assert(views(out@) =~= texts_in(all, 0));
            while i < items.len()
                invariant
                    i <= items.len(),
                    all == items_view(items@),
                    views(out@) == texts_in(all, i as int),
                decreases items.len() - i,
            {
                assert(all[i as int] == items@[i as int]@);
                if let Json::Text(t) = &items[i] {
                    let one = t.clone();
                    proof {
                        lemma_views_push(out@, one);
                    }
                    out.push(one);
                }
                i += 1;
            }
            assert(all.len() == items.len());
            AutoloadPath::Multiple(out)
        },
        _ => {
            let none: Vec<String> = Vec::new();
            assert(views(none@) =~= Seq::empty());
            AutoloadPath::Multiple(none)
        },
    }
}

/// The namespaces of a map are those of the lock file, with the directories it names.
pub open spec fn same_namespaces(s: Seq<(Seq<char>, AutoloadPath)>, o: Entries) -> bool {
    s.len() == o.len() && forall|i: int|
        0 <= i < o.len() ==> (#[trigger] s[i]).0 == o[i].0 && s[i].1@ == directories_in(o[i].1)
}

fn namespaces_of(m: &indexmap::IndexMap<String, Json>) -> (r: indexmap::IndexMap<
    String,
    AutoloadPath,
>)
    ensures
        same_namespaces(namespaces(r), named_values(*m)),
{
    let entries = entries_of(m);
    let ghost o = entries_view(entries@);
    let mut out: Vec<(String, AutoloadPath)> = Vec::new();
    let mut i: usize = 0;
    while i < entries.len()
        invariant
            i <= entries.len(),
            o == entries_view(entries@),
            out.len() == i,
            forall|k: int|
                0 <= k < i ==> (#[trigger] out@[k]).0@ == o[k].0 && out@[k].1@ == directories_in(
                    o[k].1,
                ),
        decreases entries.len() - i,
    {
        assert(o[i as int] == (entries@[i as int].0@, entries@[i as int].1@));
        out.push((entries[i].0.clone(), path_of(&entries[i].1)));
        i += 1;
    }
    proof {
        let s = namespace_list(out@);
        assert(forall|k: int| 0 <= k < s.len() ==> (#[trigger] s[k]).0 == out@[k].0@);
        assert(namespaces_differ(s)) by {
            assert forall|a: int, b: int| 0 <= a < b < s.len() implies #[trigger] s[a].0
                != #[trigger] s[b].0 by {
                assert(o[a].0 != o[b].0);
            }
        }
    }
    namespace_map(out)
}

/// What is loaded is what the lock file says.
pub open spec fn same_autoload(a: Autoload, l: LockAutoload) -> bool {
    &&& same_namespaces(namespaces(a.psr4), named_values(l.psr4))
    &&& same_namespaces(namespaces(a.psr0), named_values(l.psr0))
    &&& views(a.classmap@) == views(l.classmap@)
    &&& views(a.files@) == views(l.files@)
    &&& views(a.exclude_from_classmap@) == views(l.exclude_from_classmap@)
}

fn autoload_of(l: &LockAutoload) -> (r: Autoload)
    ensures
        same_autoload(r, *l),
{
    Autoload {
        psr4: namespaces_of(&l.psr4),
        psr0: namespaces_of(&l.psr0),
        classmap: copy_strings(&l.classmap),
        files: copy_strings(&l.files),
        exclude_from_classmap: copy_strings(&l.exclude_from_classmap),
    }
}

// ---------------------------------------------------------------------------
// Packages
// ---------------------------------------------------------------------------
/// The names among the first `n` links that are no platform packages.
pub open spec fn real_names(s: Pairs, n: int) -> Seq<Seq<char>>
    decreases n,
{
    if n <= 0 || n > s.len() {
        Seq::empty()
    } else if platform(s[n - 1].0) {
        real_names(s, n - 1)
    } else {
        real_names(s, n - 1).push(s[n - 1].0)
    }
}

fn names_without_platform(m: &indexmap::IndexMap<String, String>) -> (r: Vec<String>)
    ensures
        views(r@) == real_names(links(*m), links(*m).len() as int),
{
    let n: usize = link_count(m);
    let mut out: Vec<String> = Vec::new();
    let mut i: usize = 0;
    assert(views(out@) =~= real_names(links(*m), 0));
    while i < n
        invariant
            i <= n == links(*m).len(),
            views(out@) == real_names(links(*m), i as int),
        decreases n - i,
    {
        if let Some((name, _)) = link_entry(m, i) {
            if !is_platform_package(name) {
                let one = name.to_owned();
                proof {
                    lemma_views_push(out@, one);
                }
                out.push(one);
            }
        }
        i += 1;
    }
    out
}

/// From where a package is installed. The source is taken for a branch, where it is
/// preferred, and where there is no archive.
pub open spec fn installed_from(p: LockedPackage, prefer_source: bool) -> Option<Seq<char>> {
    if p.source is Some && (dev_version(p.version@) || prefer_source || p.dist is None) {
        Some("source"@)
    } else if p.dist is Some {
        Some("dist"@)
    } else {
        None
    }
}

/// The reference of the source where there is one, else that of the archive.
pub open spec fn source_reference(p: LockedPackage) -> Option<Seq<char>> {
    match p.source {
        Some(s) => Some(s.reference@),
        None => match p.dist {
            Some(d) => opt(d.reference),
            None => None,
        },
    }
}

/// A locked package as the generator of the loader takes it. `normalized` is its
/// version in normal form, where it has one.
pub fn locked_package_to_autoload(
    lp: &LockedPackage,
    is_dev: bool,
    aliases: &Vec<LockAlias>,
    prefer_source: bool,
    normalized: Option<String>,
) -> (r: PackageAutoload)
    ensures
        r.name@ == lp.name@,
        same_autoload(r.autoload, lp.autoload),
        r.install_path@ == lp.name@,
        views(r.requires@) == real_names(links(lp.require), links(lp.require).len() as int),
        opt(r.pretty_version) == Some(lp.version@),
        opt(r.version) == Some(
            match normalized {
                Some(n) => n@,
                None => lp.version@,
            },
        ),
        opt(r.reference) == source_reference(*lp),
        r.package_type@ == lp.package_type@,
        r.dev_requirement == is_dev,
        views(r.aliases@) == aliases_under(aliases@, aliases@.len() as int, lp.name@),
        links(r.replaces) == links(lp.replace),
        links(r.provides) == links(lp.provide),
        r.locked_package matches Some(p) && same_locked(p, *lp),
        opt(r.installation_source) == installed_from(*lp, prefer_source),
{
    let reference = match &lp.source {
        Some(s) => Some(s.reference.clone()),
        None => match &lp.dist {
            Some(d) => copy_option(&d.reference),
            None => None,
        },
    };
    let version = match normalized {
        Some(n) => n,
        None => lp.version.clone(),
    };
    let from_source = lp.source.is_some() && (is_dev_version(lp.version.as_str()) || prefer_source
        || lp.dist.is_none());
    let installation_source = if from_source {
        Some("source".to_owned())
    } else if lp.dist.is_some() {
        Some("dist".to_owned())
    } else {
        None
    };
    PackageAutoload {
        name: lp.name.clone(),
        autoload: autoload_of(&lp.autoload),
        install_path: lp.name.clone(),
        requires: names_without_platform(&lp.require),
        pretty_version: Some(lp.version.clone()),
        version: Some(version),
        reference,
        package_type: lp.package_type.clone(),
        dev_requirement: is_dev,
        aliases: aliases_of(aliases, lp.name.as_str()),
        replaces: copy_links(&lp.replace),
        provides: copy_links(&lp.provide),
        locked_package: Some(lp.clone()),
        installation_source,
    }
}

/// The name of the project: a name of its own for one that has none.
pub open spec fn root_name(manifest: ComposerJson) -> Seq<char> {
    match manifest.name {
        Some(n) => n@,
        None => "__root__"@,
    }
}

/// The project as the generator of the loader takes it.
pub fn create_root_package_info(
    manifest: &ComposerJson,
    pretty_version: String,
    version: String,
    reference: Option<String>,
    aliases: Vec<String>,
    dev_mode: bool,
) -> (r: RootPackageInfo)
    ensures
        r.name@ == root_name(*manifest),
        r.pretty_version == pretty_version,
        r.version == version,
        r.reference == reference,
        r.package_type@ == manifest.package_type@,
        r.aliases == aliases,
        r.dev_mode == dev_mode,
{
    RootPackageInfo {
        name: match &manifest.name {
            Some(n) => n.clone(),
            None => "__root__".to_owned(),
        },
        pretty_version,
        version,
        reference,
        package_type: manifest.package_type.clone(),
        aliases,
        dev_mode,
    }
}

/// What the names of the generated classes end in: the hash of the manifest, where
/// the lock file has it.
pub fn suffix_of(lock: Option<&ComposerLock>) -> (r: Option<String>)
    ensures
        opt(r) == match lock {
            Some(l) => if l.content_hash@.len() == 0 {
                None
            } else {
                Some(l.content_hash@)
            },
            None => None,
        },
{
    match lock {
        Some(l) => if l.content_hash.as_str().is_empty() {
            None
        } else {
            Some(l.content_hash.clone())
        },
        None => None,
    }
}

// ---------------------------------------------------------------------------
// What the project itself makes loadable
// ---------------------------------------------------------------------------
/// The directories with those of the first `n` namespaces added, behind the ones that a
/// namespace has.
pub open spec fn with_dirs(d: Directories, own: Seq<(Seq<char>, AutoloadPath)>, n: int)
    -> Directories
    decreases n,
{
    if n <= 0 || n > own.len() {
        d
    } else {
        with_directories(with_dirs(d, own, n - 1), own[n - 1].0, own[n - 1].1@)
    }
}

/// The directories of the namespaces of one map and of another.
pub open spec fn both_dirs(
    a: Seq<(Seq<char>, AutoloadPath)>,
    b: Seq<(Seq<char>, AutoloadPath)>,
) -> Directories {
    with_dirs(with_dirs(Seq::empty(), a, a.len() as int), b, b.len() as int)
}

/// The directories that a map gives for its namespaces.
pub open spec fn dirs_in(m: Seq<(Seq<char>, AutoloadPath)>) -> Directories {
    m.map_values(|e: (Seq<char>, AutoloadPath)| (e.0, e.1@))
}

proof fn lemma_names_ascend(d: Directories, name: Seq<char>, more: Seq<Seq<char>>)
    requires
        ascending(dir_names(d)),
    ensures
        ascending(dir_names(with_directories(d, name, more))),
{
    lemma_place(dir_names(d), name);
    lemma_ascending(dir_names(d), name);
    let at = place(dir_names(d), name);
    if is_present(dir_names(d), name) {
        assert(dir_names(d)[at] == d[at].0);
        assert(dir_names(with_directories(d, name, more)) =~= dir_names(d));
    } else {
        assert(dir_names(with_directories(d, name, more)) =~= dir_names(d).insert(at, name));
    }
}

fn add_dirs(v: &mut Vec<(String, Vec<String>)>, m: &IndexMap<String, AutoloadPath>)
    requires
        ascending(dir_names(directories(old(v)@))),
    ensures
        directories(final(v)@) == with_dirs(
            directories(old(v)@),
            namespaces(*m),
            namespaces(*m).len() as int,
        ),
        ascending(dir_names(directories(final(v)@))),
{
    let ghost d = directories(v@);
    let ghost own = namespaces(*m);
    let n: usize = namespace_count(m);
    let mut i: usize = 0;
    while i < n
        invariant
            i <= n == own.len(),
            own == namespaces(*m),
            directories(v@) == with_dirs(d, own, i as int),
            ascending(dir_names(directories(v@))),
        decreases n - i,
    {
        if let Some((namespace, paths)) = namespace_entry(m, i) {
            proof {
                lemma_names_ascend(directories(v@), namespace@, paths@);
            }
            add_directories(v, namespace, paths.as_vec());
        }
        i += 1;
    }
}

fn both(a: &IndexMap<String, AutoloadPath>, b: Option<&IndexMap<String, AutoloadPath>>) -> (r:
    IndexMap<String, AutoloadPath>)
    ensures
        dirs_in(namespaces(r)) == match b {
            Some(m) => both_dirs(namespaces(*a), namespaces(*m)),
            None => both_dirs(namespaces(*a), Seq::empty()),
        },
{
    let mut v: Vec<(String, Vec<String>)> = Vec::new();
    assert(directories(v@) =~= Seq::empty());
    assert(dir_names(directories(v@)) =~= Seq::empty());
    add_dirs(&mut v, a);
    if let Some(m) = b {
        add_dirs(&mut v, m);
    }
    let ghost d = directories(v@);
    let mut list: Vec<(String, AutoloadPath)> = Vec::new();
    let mut i: usize = 0;
    while i < v.len()
        invariant
            i <= v.len(),
            d == directories(v@),
            dirs_in(namespace_list(list@)) =~= d.take(i as int),
            list.len() == i,
        decreases v.len() - i,
    {
        let one = (v[i].0.clone(), AutoloadPath::Multiple(copy_strings(&v[i].1)));
        list.push(one);
        i += 1;
    }
    assert(d.take(i as int) =~= d);
    proof {
        let l = namespace_list(list@);
        assert forall|x: int, y: int| 0 <= x < y < l.len() implies #[trigger] l[x].0
            != #[trigger] l[y].0 by {
            assert(dirs_in(l)[x].0 == l[x].0);
            assert(dirs_in(l)[y].0 == l[y].0);
            assert(dir_names(d)[x] == l[x].0);
            assert(dir_names(d)[y] == l[y].0);
            lemma_precedes_total(l[x].0, l[x].0);
        }
    }
    namespace_map(list)
}

fn with_more(a: &Vec<String>, more: Option<&Vec<String>>) -> (r: Vec<String>)
    ensures
        views(r@) == views(a@) + match more {
            Some(m) => views(m@),
            None => Seq::empty(),
        },
{
    let mut out = copy_strings(a);
    let ghost head = views(out@);
    if let Some(m) = more {
        let mut tail = copy_strings(m);
        let ghost end = views(tail@);
        out.append(&mut tail);
        assert(views(out@) =~= head + end);
    } else {
        assert(head + Seq::<Seq<char>>::empty() =~= head);
    }
    out
}

/// What the project makes loadable: with packages for development, also what it makes
/// loadable for development, behind the rest.
pub fn root_autoload(manifest: &ComposerJson, dev_mode: bool) -> (r: Autoload)
    ensures
        ({
            let a = manifest.autoload;
            let b = manifest.autoload_dev;
            let none = Seq::<Seq<char>>::empty();
            &&& dirs_in(namespaces(r.psr4)) == both_dirs(
                namespaces(a.psr4),
                if dev_mode {
                    namespaces(b.psr4)
                } else {
                    Seq::empty()
                },
            )
            &&& dirs_in(namespaces(r.psr0)) == both_dirs(
                namespaces(a.psr0),
                if dev_mode {
                    namespaces(b.psr0)
                } else {
                    Seq::empty()
                },
            )
            &&& views(r.classmap@) == views(a.classmap@) + if dev_mode {
                views(b.classmap@)
            } else {
                none
            }
            &&& views(r.files@) == views(a.files@) + if dev_mode {
                views(b.files@)
            } else {
                none
            }
            &&& views(r.exclude_from_classmap@) == views(a.exclude_from_classmap@) + if dev_mode {
                views(b.exclude_from_classmap@)
            } else {
                none
            }
        }),
{
    let a = &manifest.autoload;
    let b = &manifest.autoload_dev;
    if dev_mode {
        Autoload {
            psr4: both(&a.psr4, Some(&b.psr4)),
            psr0: both(&a.psr0, Some(&b.psr0)),
            classmap: with_more(&a.classmap, Some(&b.classmap)),
            files: with_more(&a.files, Some(&b.files)),
            exclude_from_classmap: with_more(
                &a.exclude_from_classmap,
                Some(&b.exclude_from_classmap),
            ),
        }
    } else {
        Autoload {
            psr4: both(&a.psr4, None),
            psr0: both(&a.psr0, None),
            classmap: with_more(&a.classmap, None),
            files: with_more(&a.files, None),
            exclude_from_classmap: with_more(&a.exclude_from_classmap, None),
        }
    }
}

} // verus!
