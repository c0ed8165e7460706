//! What holds of what is done to packages: every operation of a transaction is carried out, every
//! package that was found can be chosen, and every binary is linked.
use vstd::prelude::*;

use crate::autoload::collect::{dir_names, Directories};
use crate::autoload::collect_laws::{has_directory, lemma_with_directories};
use crate::autoload::types::AutoloadPath;
use crate::holding::lemma_one_more;
use crate::installer::autoloads::{
    both_dirs, directories_in, installed_from, real_names, source_reference, texts_in, with_dirs,
};
use crate::installer::binary::{link_name_of, links_of};
use crate::installer::operations::{changing, coming, going, with_files_or_not, Operation};
use crate::installer::pool::{
    by_version, names_among, pool_order, under, version_inserted, with_batch, Batches,
};
use crate::installer::settle::locked_to_install;
use crate::json::JsonView;
use crate::links::Pairs;
use crate::lock::{ComposerLock, LockedPackage};
use crate::names::{canonical, platform};
use crate::package::{dev_version, Package};
use crate::paths::joined_path;
use crate::sorted::{ascending, keys, lemma_place, place};
use crate::text::{lemma_precedes_total, lemma_precedes_transitive, precedes};

verus! {

proof fn lemma_operations<'a>(
    ops: Seq<Operation<'a>>,
    n: int,
    all: bool,
    p: &'a Package,
    q: &'a Package,
)
    requires
        0 <= n <= ops.len(),
    ensures
        coming(ops, n, all).contains(p) <==> (all || !platform(p.name@)) && exists|k: int|
            0 <= k < n && #[trigger] ops[k] == Operation::Install(p),
        going(ops, n, all).contains(p) <==> (all || !platform(p.name@)) && exists|k: int|
            0 <= k < n && #[trigger] ops[k] == Operation::Uninstall(p),
        changing(ops, n, all).contains((p, q)) <==> (all || !platform(q.name@)) && exists|k: int|
            0 <= k < n && #[trigger] ops[k] == (Operation::Update { from: p, to: q }),
    decreases n,
{
    if n > 0 {
        lemma_operations(ops, n - 1, all, p, q);
        match ops[n - 1] {
            Operation::Install(x) => lemma_one_more(coming(ops, n - 1, all), x, p),
            Operation::Uninstall(x) => lemma_one_more(going(ops, n - 1, all), x, p),
            Operation::Update { from, to } => lemma_one_more(
                changing(ops, n - 1, all),
                (from, to),
                (p, q),
            ),
            _ => {},
        }
    }
}

/// Every package that a transaction installs, updates or removes is installed, updated or removed,
/// platform packages aside unless nothing is done; and no other package is.
pub proof fn law_every_operation_is_carried_out<'a>(
    ops: Seq<Operation<'a>>,
    dry_run: bool,
    p: &'a Package,
    q: &'a Package,
)
    ensures
        coming(ops, ops.len() as int, dry_run).contains(p) <==> (dry_run || !platform(p.name@))
            && ops.contains(Operation::Install(p)),
        going(ops, ops.len() as int, dry_run).contains(p) <==> (dry_run || !platform(p.name@))
            && ops.contains(Operation::Uninstall(p)),
        changing(ops, ops.len() as int, dry_run).contains((p, q)) <==> (dry_run || !platform(
            q.name@,
        )) && ops.contains(Operation::Update { from: p, to: q }),
{
    lemma_operations(ops, ops.len() as int, dry_run, p, q);
}

/// Every package that is no platform package either has files or has none, and is among those of
/// its kind.
pub proof fn law_packages_with_and_without_files<'a>(packages: Seq<&'a Package>, p: &'a Package)
    ensures
        with_files_or_not(packages, packages.len() as int, true).contains(p) <==> packages.contains(
            p,
        ) && !platform(p.name@) && p.package_type@ != "metapackage"@,
        with_files_or_not(packages, packages.len() as int, false).contains(p)
            <==> packages.contains(p) && !platform(p.name@) && p.package_type@ == "metapackage"@,
{
    lemma_files(packages, packages.len() as int, p);
    if packages.contains(p) {
        let k = choose|k: int| 0 <= k < packages.len() && packages[k] == p;
        assert(packages[k] == p);
    }
}

proof fn lemma_files<'a>(packages: Seq<&'a Package>, n: int, p: &'a Package)
    requires
        0 <= n <= packages.len(),
    ensures
        with_files_or_not(packages, n, true).contains(p) <==> !platform(p.name@) && p.package_type@
            != "metapackage"@ && exists|k: int| 0 <= k < n && #[trigger] packages[k] == p,
        with_files_or_not(packages, n, false).contains(p) <==> !platform(p.name@) && p.package_type@
            == "metapackage"@ && exists|k: int| 0 <= k < n && #[trigger] packages[k] == p,
    decreases n,
{
    if n > 0 {
        lemma_files(packages, n - 1, p);
        lemma_one_more(with_files_or_not(packages, n - 1, true), packages[n - 1], p);
        lemma_one_more(with_files_or_not(packages, n - 1, false), packages[n - 1], p);
    }
}

/// An install is about every package that is locked for production, and about every one for
/// development unless these are left out.
pub proof fn law_locked_packages_are_installed(lock: ComposerLock, no_dev: bool, p: LockedPackage)
    ensures
        locked_to_install(lock, no_dev).contains(p) <==> lock.packages@.contains(p) || (!no_dev
            && lock.packages_dev@.contains(p)),
{
    crate::holding::lemma_plus(lock.packages@, lock.packages_dev@, p);
}

// ---------------------------------------------------------------------------
// The pool
// ---------------------------------------------------------------------------
proof fn lemma_version_inserted(s: Seq<Package>, p: Package, e: Package)
    ensures
        version_inserted(s, p).contains(e) <==> s.contains(e) || e == p,
        version_inserted(s, p).len() == s.len() + 1,
    decreases s.len(),
{
    if s.len() > 0 && precedes(p.version@, s.last().version@) {
        lemma_version_inserted(s.drop_last(), p, e);
        lemma_one_more(version_inserted(s.drop_last(), p), s.last(), e);
        lemma_one_more(s.drop_last(), s.last(), e);
        assert(s =~= s.drop_last().push(s.last()));
    } else {
        lemma_one_more(s, p, e);
    }
}

proof fn lemma_by_version(s: Seq<Package>, e: Package)
    ensures
        by_version(s).contains(e) <==> s.contains(e),
        by_version(s).len() == s.len(),
    decreases s.len(),
{
    if s.len() > 0 {
        lemma_by_version(s.drop_last(), e);
        lemma_version_inserted(by_version(s.drop_last()), s.last(), e);
        lemma_one_more(s.drop_last(), s.last(), e);
        assert(s =~= s.drop_last().push(s.last()));
    }
}

/// The versions do not descend.
pub open spec fn versions_ascend(s: Seq<Package>) -> bool {
    forall|i: int, j: int|
        0 <= i < j < s.len() ==> !precedes((#[trigger] s[j]).version@, (#[trigger] s[i]).version@)
}

proof fn lemma_inserted_in_order(s: Seq<Package>, p: Package)
    requires
        versions_ascend(s),
    ensures
        versions_ascend(version_inserted(s, p)),
    decreases s.len(),
{
    let r = version_inserted(s, p);
    if s.len() > 0 && precedes(p.version@, s.last().version@) {
        let head = s.drop_last();
        lemma_inserted_in_order(head, p);
        let t = version_inserted(head, p);
        assert forall|i: int, j: int| 0 <= i < j < r.len() implies !precedes(
            (#[trigger] r[j]).version@,
            (#[trigger] r[i]).version@,
        ) by {
            if j == t.len() {
                lemma_version_inserted(head, p, t[i]);
                assert(t.contains(t[i]));
                if t[i] == p {
                    lemma_precedes_total(p.version@, s.last().version@);
                } else {
                    let k = choose|k: int| 0 <= k < head.len() && head[k] == t[i];
                    assert(s[k] == t[i]);
                    assert(!precedes(s[s.len() - 1].version@, s[k].version@));
                }
            } else {
                assert(!precedes(t[j].version@, t[i].version@));
            }
        }
    } else {
        assert forall|i: int, j: int| 0 <= i < j < r.len() implies !precedes(
            (#[trigger] r[j]).version@,
            (#[trigger] r[i]).version@,
        ) by {
            if j == s.len() {
                if i < s.len() - 1 {
                    let l = s.last();
                    assert(!precedes(s[s.len() - 1].version@, s[i].version@));
                    lemma_precedes_total(p.version@, l.version@);
                    lemma_precedes_total(s[i].version@, l.version@);
                    if precedes(p.version@, s[i].version@) {
                        if precedes(s[i].version@, l.version@) {
                            lemma_precedes_transitive(p.version@, s[i].version@, l.version@);
                        }
                    }
                }
            } else {
                assert(!precedes(s[j].version@, s[i].version@));
            }
        }
    }
}

/// The versions of one package come in their order, and none is lost.
pub proof fn law_versions_are_in_order(s: Seq<Package>, e: Package)
    ensures
        versions_ascend(by_version(s)),
        by_version(s).contains(e) <==> s.contains(e),
        by_version(s).len() == s.len(),
    decreases s.len(),
{
    lemma_by_version(s, e);
    if s.len() > 0 {
        law_versions_are_in_order(s.drop_last(), e);
        lemma_inserted_in_order(by_version(s.drop_last()), s.last());
    }
}

proof fn lemma_pool_order(s: Batches, n: int, p: Package)
    requires
        0 <= n <= s.len(),
    ensures
        pool_order(s, n).contains(p) <==> exists|k: int|
            0 <= k < n && (#[trigger] s[k]).1.contains(p),
    decreases n,
{
    if n > 0 {
        lemma_pool_order(s, n - 1, p);
        lemma_by_version(s[n - 1].1, p);
        crate::holding::lemma_plus(pool_order(s, n - 1), by_version(s[n - 1].1), p);
    }
}

/// Every package that was found can be chosen, whichever name it was found under, and no other.
pub proof fn law_every_found_package_can_be_chosen(s: Batches, p: Package)
    ensures
        pool_order(s, s.len() as int).contains(p) <==> exists|k: int|
            0 <= k < s.len() && (#[trigger] s[k]).1.contains(p),
{
    lemma_pool_order(s, s.len() as int, p);
}

/// A batch adds its packages under its name, behind those that are there, and leaves the packages
/// under other names as they are.
pub proof fn law_batches_are_added(
    s: Batches,
    name: Seq<char>,
    more: Seq<Package>,
    other: Seq<char>,
)
    requires
        ascending(keys(s)),
    ensures
        ascending(keys(with_batch(s, name, more))),
        under(with_batch(s, name, more), name) == under(s, name) + more,
        other != name ==> under(with_batch(s, name, more), other) == under(s, other),
{
    let v = under(s, name) + more;
    let r = with_batch(s, name, more);
    crate::sorted::law_put_values_are_sorted_and_found(s, name, v);
    lemma_place(keys(s), name);
    assert(keys(s).len() == s.len());
    crate::installer::pool::lemma_one_place(r, place(keys(s), name), name);
    if other != name {
        crate::installer::pool::lemma_under_other(s, name, v, other);
    }
}

/// What is installed is told by its canonical names.
pub proof fn law_present_packages_are_named(present: Seq<Package>, name: Seq<char>)
    ensures
        names_among(present, present.len() as int).contains(name) <==> exists|k: int|
            0 <= k < present.len() && canonical((#[trigger] present[k]).name@) == name,
{
    lemma_names_among(present, present.len() as int, name);
}

proof fn lemma_names_among(present: Seq<Package>, n: int, name: Seq<char>)
    requires
        0 <= n <= present.len(),
    ensures
        names_among(present, n).contains(name) <==> exists|k: int|
            0 <= k < n && canonical((#[trigger] present[k]).name@) == name,
    decreases n,
{
    if n > 0 {
        lemma_names_among(present, n - 1, name);
    }
}

// ---------------------------------------------------------------------------
// Binaries
// ---------------------------------------------------------------------------
/// Every binary of a package is linked, in its order: from where it stands to a name in the
/// directory for binaries.
pub proof fn law_every_binary_is_linked(
    bins: Seq<Seq<char>>,
    package_dir: Seq<char>,
    bin_dir: Seq<char>,
    k: int,
)
    requires
        0 <= k < bins.len(),
    ensures
        links_of(bins, bins.len() as int, package_dir, bin_dir).len() == bins.len(),
        links_of(bins, bins.len() as int, package_dir, bin_dir)[k] == (
            joined_path(package_dir, bins[k]),
            joined_path(bin_dir, link_name_of(bins[k])),
        ),
{
    lemma_links_of(bins, bins.len() as int, package_dir, bin_dir, k);
}

proof fn lemma_links_of(
    bins: Seq<Seq<char>>,
    n: int,
    package_dir: Seq<char>,
    bin_dir: Seq<char>,
    k: int,
)
    requires
        0 <= n <= bins.len(),
    ensures
        links_of(bins, n, package_dir, bin_dir).len() == n,
        0 <= k < n ==> links_of(bins, n, package_dir, bin_dir)[k] == (
            joined_path(package_dir, bins[k]),
            joined_path(bin_dir, link_name_of(bins[k])),
        ),
    decreases n,
{
    if n > 0 {
        lemma_links_of(bins, n - 1, package_dir, bin_dir, k);
    }
}

// ---------------------------------------------------------------------------
// What the loader is handed
// ---------------------------------------------------------------------------
/// A map gives the directory for the namespace.
pub open spec fn gives(own: Seq<(Seq<char>, AutoloadPath)>, name: Seq<char>, dir: Seq<char>) -> bool {
    exists|k: int| 0 <= k < own.len() && (#[trigger] own[k]).0 == name && own[k].1@.contains(dir)
}

proof fn lemma_with_dirs(
    d: Directories,
    own: Seq<(Seq<char>, AutoloadPath)>,
    n: int,
    name: Seq<char>,
    dir: Seq<char>,
)
    requires
        0 <= n <= own.len(),
        ascending(dir_names(d)),
    ensures
        ascending(dir_names(with_dirs(d, own, n))),
        has_directory(with_dirs(d, own, n), name, dir) <==> has_directory(d, name, dir) || exists|
            k: int,
        |
            0 <= k < n && (#[trigger] own[k]).0 == name && own[k].1@.contains(dir),
    decreases n,
{
    if n > 0 {
        lemma_with_dirs(d, own, n - 1, name, dir);
        lemma_with_directories(
            with_dirs(d, own, n - 1),
            own[n - 1].0,
            own[n - 1].1@,
            name,
            dir,
        );
    }
}

/// Of two declarations of the project, either counts: what one of them gives for a namespace is
/// there, and nothing else is.
pub proof fn law_both_declarations_count(
    a: Seq<(Seq<char>, AutoloadPath)>,
    b: Seq<(Seq<char>, AutoloadPath)>,
    name: Seq<char>,
    dir: Seq<char>,
)
    ensures
        has_directory(both_dirs(a, b), name, dir) <==> gives(a, name, dir) || gives(b, name, dir),
        ascending(dir_names(both_dirs(a, b))),
{
    let none: Directories = Seq::empty();
    assert(dir_names(none) =~= Seq::empty());
    lemma_with_dirs(none, a, a.len() as int, name, dir);
    lemma_with_dirs(with_dirs(none, a, a.len() as int), b, b.len() as int, name, dir);
}

proof fn lemma_texts_in(items: Seq<JsonView>, n: int, t: Seq<char>)
    requires
        0 <= n <= items.len(),
    ensures
        texts_in(items, n).contains(t) <==> exists|k: int|
            0 <= k < n && #[trigger] items[k] == JsonView::Text(t),
    decreases n,
{
    if n > 0 {
        lemma_texts_in(items, n - 1, t);
        if let JsonView::Text(x) = items[n - 1] {
            lemma_one_more(texts_in(items, n - 1), x, t);
        }
    }
}

/// A value names the text that it is, or every text of the list that it is.
pub proof fn law_directories_are_those_named(v: JsonView, t: Seq<char>)
    ensures
        directories_in(v).contains(t) <==> v == JsonView::Text(t) || (v matches JsonView::Array(items)
            && items.contains(JsonView::Text(t))),
{
    match v {
        JsonView::Text(x) => {
            assert(seq![x][0] == x);
            assert(directories_in(v).len() == 1);
        },
        JsonView::Array(items) => {
            lemma_texts_in(items, items.len() as int, t);
        },
        _ => {},
    }
}

proof fn lemma_real_names(s: Pairs, n: int, name: Seq<char>)
    requires
        0 <= n <= s.len(),
    ensures
        real_names(s, n).contains(name) <==> !platform(name) && exists|k: int|
            0 <= k < n && (#[trigger] s[k]).0 == name,
    decreases n,
{
    if n > 0 {
        lemma_real_names(s, n - 1, name);
        lemma_one_more(real_names(s, n - 1), s[n - 1].0, name);
    }
}

/// The order of loading goes by every requirement that is not one on the platform.
pub proof fn law_requirements_decide_on_the_order(require: Pairs, name: Seq<char>)
    ensures
        real_names(require, require.len() as int).contains(name) <==> !platform(name) && exists|
            k: int,
        |
            0 <= k < require.len() && (#[trigger] require[k]).0 == name,
{
    lemma_real_names(require, require.len() as int, name);
}

/// A package comes from its source where it follows a branch, where sources are preferred and
/// where it has no archive; else from its archive; and from nowhere where it has neither.
pub proof fn law_source_or_archive(p: LockedPackage, prefer_source: bool)
    ensures
        p.source is Some && prefer_source ==> installed_from(p, prefer_source) == Some("source"@),
        p.source is Some && p.dist is None ==> installed_from(p, prefer_source) == Some("source"@),
        p.source is Some && dev_version(p.version@) ==> installed_from(p, prefer_source) == Some(
            "source"@,
        ),
        p.dist is Some && p.source is None ==> installed_from(p, prefer_source) == Some("dist"@),
        p.dist is Some && !prefer_source && !dev_version(p.version@) ==> installed_from(
            p,
            prefer_source,
        ) == Some("dist"@),
        p.dist is None && p.source is None ==> installed_from(p, prefer_source) is None,
        p.source matches Some(s) ==> source_reference(p) == Some(s.reference@),
        p.source is None ==> (p.dist matches Some(d) ==> source_reference(p) == crate::lock::opt(
            d.reference,
        )),
        p.source is None && p.dist is None ==> source_reference(p) is None,
{
}

} // verus!
