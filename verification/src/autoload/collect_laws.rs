//! What holds of what the loader knows: whatever a package or the project declares is in it, and
//! nothing else is.
use vstd::prelude::*;

use crate::autoload::code::{code_path, md5, path_code, pattern_path, wildcard_regex};
use crate::autoload::collect::{
    code_paths, codes, collected, dir_names, exclude_list, namespace_scans, package_excludes,
    package_scans, pair_keys, scans, seen_from,
    with_autoload, with_classes, with_directories, with_files, with_namespaces, with_packages,
    with_pair, CollectedView, Directories,
};
use crate::autoload::types::{namespaces, Autoload, AutoloadPath, PackageAutoload};
use crate::holding::lemma_plus;
use crate::links::Pairs;
use crate::paths::joined_path;
use crate::sorted::{ascending, is_present, lemma_ascending, lemma_place, place};
use crate::text::{start_trimmed, views};

verus! {

/// The list has the namespace, and the directory among its directories.
pub open spec fn has_directory(d: Directories, name: Seq<char>, dir: Seq<char>) -> bool {
    exists|at: int|
        0 <= at < d.len() && (#[trigger] d[at]).0 == name && d[at].1.contains(dir)
}

/// A namespace of a declaration, without leading backslashes, is `name`, and one of its
/// directories stands for the code `dir`.
pub open spec fn declares(
    own: Seq<(Seq<char>, AutoloadPath)>,
    install_path: Seq<char>,
    name: Seq<char>,
    dir: Seq<char>,
) -> bool {
    exists|k: int, m: int|
        0 <= k < own.len() && 0 <= m < own[k].1@.len() && start_trimmed(own[k].0, '\\', '\\')
            == name && dir == path_code(
            install_path,
            #[trigger] own[k].1@[m],
            install_path.len() == 0,
        )
}

pub proof fn lemma_with_directories(
    d: Directories,
    name: Seq<char>,
    more: Seq<Seq<char>>,
    other: Seq<char>,
    dir: Seq<char>,
)
    requires
        ascending(dir_names(d)),
    ensures
        ascending(dir_names(with_directories(d, name, more))),
        has_directory(with_directories(d, name, more), other, dir) <==> has_directory(d, other, dir)
            || (other == name && more.contains(dir)),
        dir_names(with_directories(d, name, more)).contains(other) <==> dir_names(d).contains(other)
            || other == name,
{
    let names = dir_names(d);
    let r = with_directories(d, name, more);
    let at = place(names, name);
    lemma_place(names, name);
    lemma_ascending(names, name);
    if is_present(names, name) {
        assert(dir_names(r) =~= names);
        assert(names[at] == d[at].0);
    } else {
        assert(dir_names(r) =~= names.insert(at, name));
        assert(names.insert(at, name)[at] == name);
    }
    if has_directory(d, other, dir) {
        let k = choose|k: int|
            0 <= k < d.len() && (#[trigger] d[k]).0 == other && d[k].1.contains(dir);
        if is_present(names, name) {
            if k == at {
                let m = choose|m: int| 0 <= m < d[k].1.len() && d[k].1[m] == dir;
                assert(r[at].1[m] == dir);
                assert(r[at].0 == other);
            } else {
                assert(r[k] == d[k]);
            }
        } else if k < at {
            assert(r[k] == d[k]);
        } else {
            assert(r[k + 1] == d[k]);
        }
    }
    if other == name && more.contains(dir) {
        let m = choose|m: int| 0 <= m < more.len() && more[m] == dir;
        if is_present(names, name) {
            assert(r[at].1[d[at].1.len() + m] == dir);
        }
        assert(r[at].0 == other && r[at].1.contains(dir));
    }
    if has_directory(r, other, dir) {
        let k = choose|k: int|
            0 <= k < r.len() && (#[trigger] r[k]).0 == other && r[k].1.contains(dir);
        if is_present(names, name) {
            if k == at {
                let m = choose|m: int| 0 <= m < r[k].1.len() && r[k].1[m] == dir;
                if m < d[at].1.len() {
                    assert(d[at].1[m] == dir);
                    assert(d[at].0 == other);
                } else {
                    assert(more[m - d[at].1.len()] == dir);
                }
            } else {
                assert(r[k] == d[k]);
            }
        } else if k < at {
            assert(r[k] == d[k]);
        } else if k > at {
            assert(r[k] == d[k - 1]);
        }
    }
    if names.contains(other) {
        let k = choose|k: int| 0 <= k < names.len() && names[k] == other;
        if !is_present(names, name) {
            if k < at {
                assert(dir_names(r)[k] == other);
            } else {
                assert(dir_names(r)[k + 1] == other);
            }
        }
    }
    if dir_names(r).contains(other) {
        let k = choose|k: int| 0 <= k < dir_names(r).len() && dir_names(r)[k] == other;
        if !is_present(names, name) {
            if k < at {
                assert(names[k] == other);
            } else if k > at {
                assert(names[k - 1] == other);
            }
        }
    }
}

proof fn lemma_with_namespaces(
    d: Directories,
    own: Seq<(Seq<char>, AutoloadPath)>,
    n: int,
    install_path: Seq<char>,
    name: Seq<char>,
    dir: Seq<char>,
)
    requires
        0 <= n <= own.len(),
        ascending(dir_names(d)),
    ensures
        ascending(
            dir_names(with_namespaces(d, own, n, install_path, install_path.len() == 0)),
        ),
        has_directory(
            with_namespaces(d, own, n, install_path, install_path.len() == 0),
            name,
            dir,
        ) <==> has_directory(d, name, dir) || declares(own.take(n), install_path, name, dir),
    decreases n,
{
    let is_root = install_path.len() == 0;
    if n > 0 {
        lemma_with_namespaces(d, own, n - 1, install_path, name, dir);
        let t = with_namespaces(d, own, n - 1, install_path, is_root);
        let own_name = start_trimmed(own[n - 1].0, '\\', '\\');
        let more = codes(own[n - 1].1@, install_path, is_root);
        lemma_with_directories(t, own_name, more, name, dir);
        if declares(own.take(n - 1), install_path, name, dir) {
            let (k, m) = choose|k: int, m: int|
                0 <= k < own.take(n - 1).len() && 0 <= m < own.take(n - 1)[k].1@.len()
                    && start_trimmed(own.take(n - 1)[k].0, '\\', '\\') == name && dir == path_code(
                    install_path,
                    #[trigger] own.take(n - 1)[k].1@[m],
                    is_root,
                );
            assert(own.take(n)[k] == own.take(n - 1)[k]);
            assert(dir == path_code(install_path, own.take(n)[k].1@[m], is_root));
        }
        if own_name == name && more.contains(dir) {
            let m = choose|m: int| 0 <= m < more.len() && more[m] == dir;
            assert(own.take(n)[n - 1] == own[n - 1]);
            assert(dir == path_code(install_path, own.take(n)[n - 1].1@[m], is_root));
        }
        if declares(own.take(n), install_path, name, dir) {
            let (k, m) = choose|k: int, m: int|
                0 <= k < own.take(n).len() && 0 <= m < own.take(n)[k].1@.len() && start_trimmed(
                    own.take(n)[k].0,
                    '\\',
                    '\\',
                ) == name && dir == path_code(
                    install_path,
                    #[trigger] own.take(n)[k].1@[m],
                    is_root,
                );
            if k == n - 1 {
                assert(more[m] == dir);
            } else {
                assert(own.take(n - 1)[k] == own.take(n)[k]);
                assert(dir == path_code(install_path, own.take(n - 1)[k].1@[m], is_root));
            }
        }
    } else {
        assert(own.take(0).len() == 0);
    }
}

proof fn lemma_with_files(
    s: Pairs,
    files: Seq<Seq<char>>,
    n: int,
    package: Seq<char>,
    install_path: Seq<char>,
    is_root: bool,
    e: (Seq<char>, Seq<char>),
)
    requires
        0 <= n <= files.len(),
    ensures
        with_files(s, files, n, package, install_path, is_root).contains(e) <==> s.contains(e)
            || exists|k: int|
            0 <= k < n && e == (
                md5(package + ":"@ + #[trigger] files[k]),
                path_code(install_path, files[k], is_root),
            ),
        with_files(s, files, n, package, install_path, is_root).len() == s.len() + n,
        with_files(s, files, n, package, install_path, is_root).take(s.len() as int) == s,
    decreases n,
{
    let r = with_files(s, files, n, package, install_path, is_root);
    if n > 0 {
        lemma_with_files(s, files, n - 1, package, install_path, is_root, e);
        let t = with_files(s, files, n - 1, package, install_path, is_root);
        assert(r.take(s.len() as int) =~= t.take(s.len() as int));
        if r.contains(e) {
            let k = choose|k: int| 0 <= k < r.len() && r[k] == e;
            if k < t.len() {
                assert(t[k] == e);
            } else {
                assert(e.0 == md5(package + ":"@ + files[n - 1]));
            }
        }
        if t.contains(e) {
            let k = choose|k: int| 0 <= k < t.len() && t[k] == e;
            assert(r[k] == e);
        }
        assert(r[t.len() as int] == (
            md5(package + ":"@ + files[n - 1]),
            path_code(install_path, files[n - 1], is_root),
        ));
        assert(r.contains(r[t.len() as int]));
    } else {
        assert(r.take(s.len() as int) =~= s);
    }
}

/// The namespaces ascend.
pub open spec fn in_order(c: CollectedView) -> bool {
    ascending(dir_names(c.psr4)) && ascending(dir_names(c.psr0))
}

/// A package declares the file, with the code that stands for it.
pub open spec fn declares_file(
    autoload: Autoload,
    install_path: Seq<char>,
    package: Seq<char>,
    e: (Seq<char>, Seq<char>),
) -> bool {
    exists|k: int|
        0 <= k < autoload.files@.len() && e == (
            md5(package + ":"@ + #[trigger] views(autoload.files@)[k]),
            path_code(install_path, views(autoload.files@)[k], install_path.len() == 0),
        )
}

/// A package adds what it declares to what the loader knows, by either kind of namespace and as
/// files, and nothing else.
pub proof fn law_package_adds_what_it_declares(
    c: CollectedView,
    autoload: Autoload,
    install_path: Seq<char>,
    package: Seq<char>,
    name: Seq<char>,
    dir: Seq<char>,
    e: (Seq<char>, Seq<char>),
)
    requires
        in_order(c),
    ensures
        in_order(with_autoload(c, autoload, install_path, package)),
        has_directory(with_autoload(c, autoload, install_path, package).psr4, name, dir)
            <==> has_directory(c.psr4, name, dir) || declares(
            namespaces(autoload.psr4),
            install_path,
            name,
            dir,
        ),
        has_directory(with_autoload(c, autoload, install_path, package).psr0, name, dir)
            <==> has_directory(c.psr0, name, dir) || declares(
            namespaces(autoload.psr0),
            install_path,
            name,
            dir,
        ),
        with_autoload(c, autoload, install_path, package).files.contains(e) <==> c.files.contains(
            e,
        ) || declares_file(autoload, install_path, package, e),
{
    let p4 = namespaces(autoload.psr4);
    let p0 = namespaces(autoload.psr0);
    lemma_with_namespaces(c.psr4, p4, p4.len() as int, install_path, name, dir);
    lemma_with_namespaces(c.psr0, p0, p0.len() as int, install_path, name, dir);
    assert(p4.take(p4.len() as int) =~= p4);
    assert(p0.take(p0.len() as int) =~= p0);
    let f = views(autoload.files@);
    assert(f.len() == autoload.files@.len());
    lemma_with_files(
        c.files,
        f,
        f.len() as int,
        package,
        install_path,
        install_path.len() == 0,
        e,
    );
}

/// The place of the package in what is known, before and after the others.
proof fn lemma_with_packages(
    c: CollectedView,
    packages: Seq<PackageAutoload>,
    n: int,
    name: Seq<char>,
    dir: Seq<char>,
    e: (Seq<char>, Seq<char>),
)
    requires
        0 <= n <= packages.len(),
        in_order(c),
    ensures
        in_order(with_packages(c, packages, n)),
        has_directory(with_packages(c, packages, n).psr4, name, dir) <==> has_directory(
            c.psr4,
            name,
            dir,
        ) || exists|i: int|
            0 <= i < n && (#[trigger] packages[i]).package_type@ != "metapackage"@ && declares(
                namespaces(packages[i].autoload.psr4),
                packages[i].install_path@,
                name,
                dir,
            ),
        has_directory(with_packages(c, packages, n).psr0, name, dir) <==> has_directory(
            c.psr0,
            name,
            dir,
        ) || exists|i: int|
            0 <= i < n && (#[trigger] packages[i]).package_type@ != "metapackage"@ && declares(
                namespaces(packages[i].autoload.psr0),
                packages[i].install_path@,
                name,
                dir,
            ),
        with_packages(c, packages, n).files.contains(e) <==> c.files.contains(e) || exists|i: int|
            0 <= i < n && (#[trigger] packages[i]).package_type@ != "metapackage"@
                && declares_file(
                packages[i].autoload,
                packages[i].install_path@,
                packages[i].name@,
                e,
            ),
    decreases n,
{
    if n > 0 {
        lemma_with_packages(c, packages, n - 1, name, dir, e);
        let t = with_packages(c, packages, n - 1);
        let p = packages[n - 1];
        law_package_adds_what_it_declares(
            t,
            p.autoload,
            p.install_path@,
            p.name@,
            name,
            dir,
            e,
        );
        let r = with_packages(c, packages, n);
        assert(p.package_type@ == "metapackage"@ || p.package_type@ != "metapackage"@);
        assert(packages[n - 1] == p);
    }
}

/// The loader knows a directory under a namespace, of either kind, exactly where a package with
/// files declares it or the project does; and so it is with files.
pub proof fn law_loader_knows_what_is_declared(
    packages: Seq<PackageAutoload>,
    root: Option<&Autoload>,
    name: Seq<char>,
    dir: Seq<char>,
    e: (Seq<char>, Seq<char>),
)
    ensures
        has_directory(collected(packages, root).psr4, name, dir) <==> (exists|i: int|
            0 <= i < packages.len() && (#[trigger] packages[i]).package_type@ != "metapackage"@
                && declares(
                namespaces(packages[i].autoload.psr4),
                packages[i].install_path@,
                name,
                dir,
            )) || (root matches Some(a) && declares(namespaces(a.psr4), Seq::empty(), name, dir)),
        has_directory(collected(packages, root).psr0, name, dir) <==> (exists|i: int|
            0 <= i < packages.len() && (#[trigger] packages[i]).package_type@ != "metapackage"@
                && declares(
                namespaces(packages[i].autoload.psr0),
                packages[i].install_path@,
                name,
                dir,
            )) || (root matches Some(a) && declares(namespaces(a.psr0), Seq::empty(), name, dir)),
        collected(packages, root).files.contains(e) <==> (exists|i: int|
            0 <= i < packages.len() && (#[trigger] packages[i]).package_type@ != "metapackage"@
                && declares_file(
                packages[i].autoload,
                packages[i].install_path@,
                packages[i].name@,
                e,
            )) || (root matches Some(a) && declares_file(*a, Seq::empty(), "__root__"@, e)),
        in_order(collected(packages, root)),
{
    let nothing = CollectedView { psr4: Seq::empty(), psr0: Seq::empty(), files: Seq::empty() };
    assert(dir_names(nothing.psr4) =~= Seq::empty());
    assert(in_order(nothing));
    lemma_with_packages(nothing, packages, packages.len() as int, name, dir, e);
    let c = with_packages(nothing, packages, packages.len() as int);
    if let Some(a) = root {
        law_package_adds_what_it_declares(c, *a, Seq::empty(), "__root__"@, name, dir, e);
    }
}

proof fn lemma_package_scans(packages: Seq<PackageAutoload>, vendor_dir: Seq<char>, base_dir: Seq<char>, n: int, e: Seq<char>)
    requires
        0 <= n <= packages.len(),
    ensures
        package_scans(packages, n, vendor_dir, base_dir).contains(e) <==> exists|k: int| 0 <= k < n && packages[k].package_type@ != "metapackage"@ && seen_from(if (#[trigger] packages[k]).install_path@.len() == 0 { base_dir } else { joined_path(vendor_dir, packages[k].install_path@) }, views(packages[k].autoload.classmap@)).contains(e),
    decreases n,
{
    if n > 0 {
        lemma_package_scans(packages, vendor_dir, base_dir, n - 1, e);
        let t = package_scans(packages, n - 1, vendor_dir, base_dir);
        let r = package_scans(packages, n, vendor_dir, base_dir);
        let own = seen_from(if packages[n - 1].install_path@.len() == 0 { base_dir } else { joined_path(vendor_dir, packages[n - 1].install_path@) }, views(packages[n - 1].autoload.classmap@));
        if r.contains(e) {
            let i = choose|i: int| 0 <= i < r.len() && r[i] == e;
            if i < t.len() {
                assert(t[i] == e);
                let k = choose|k: int| 0 <= k < n - 1 && packages[k].package_type@ != "metapackage"@ && seen_from(if (#[trigger] packages[k]).install_path@.len() == 0 { base_dir } else { joined_path(vendor_dir, packages[k].install_path@) }, views(packages[k].autoload.classmap@)).contains(e);
                assert(seen_from(if packages[k].install_path@.len() == 0 { base_dir } else { joined_path(vendor_dir, packages[k].install_path@) }, views(packages[k].autoload.classmap@)).contains(e));
            } else {
                assert(own[i - t.len()] == e);
                assert(seen_from(if packages[n - 1].install_path@.len() == 0 { base_dir } else { joined_path(vendor_dir, packages[n - 1].install_path@) }, views(packages[n - 1].autoload.classmap@)).contains(e));
            }
        }
        if exists|k: int| 0 <= k < n && packages[k].package_type@ != "metapackage"@ && seen_from(if (#[trigger] packages[k]).install_path@.len() == 0 { base_dir } else { joined_path(vendor_dir, packages[k].install_path@) }, views(packages[k].autoload.classmap@)).contains(e) {
            let k = choose|k: int| 0 <= k < n && packages[k].package_type@ != "metapackage"@ && seen_from(if (#[trigger] packages[k]).install_path@.len() == 0 { base_dir } else { joined_path(vendor_dir, packages[k].install_path@) }, views(packages[k].autoload.classmap@)).contains(e);
            if k == n - 1 {
                let i = choose|i: int| 0 <= i < own.len() && own[i] == e;
                assert(r[t.len() + i] == e);
            } else {
                assert(seen_from(if packages[k].install_path@.len() == 0 { base_dir } else { joined_path(vendor_dir, packages[k].install_path@) }, views(packages[k].autoload.classmap@)).contains(e));
                let i = choose|i: int| 0 <= i < t.len() && t[i] == e;
                assert(r[i] == e);
            }
        }
    }
}

proof fn lemma_package_excludes(packages: Seq<PackageAutoload>, vendor_dir: Seq<char>, base_dir: Seq<char>, n: int, e: Seq<char>)
    requires
        0 <= n <= packages.len(),
    ensures
        package_excludes(packages, n, vendor_dir, base_dir).contains(e) <==> exists|k: int| 0 <= k < n && exclude_list(views((#[trigger] packages[k]).autoload.exclude_from_classmap@), packages[k].install_path@, false, vendor_dir, base_dir).contains(e),
    decreases n,
{
    if n > 0 {
        lemma_package_excludes(packages, vendor_dir, base_dir, n - 1, e);
        let t = package_excludes(packages, n - 1, vendor_dir, base_dir);
        let r = package_excludes(packages, n, vendor_dir, base_dir);
        let own = exclude_list(views(packages[n - 1].autoload.exclude_from_classmap@), packages[n - 1].install_path@, false, vendor_dir, base_dir);
        if r.contains(e) {
            let i = choose|i: int| 0 <= i < r.len() && r[i] == e;
            if i < t.len() {
                assert(t[i] == e);
                let k = choose|k: int| 0 <= k < n - 1 && exclude_list(views((#[trigger] packages[k]).autoload.exclude_from_classmap@), packages[k].install_path@, false, vendor_dir, base_dir).contains(e);
                assert(exclude_list(views(packages[k].autoload.exclude_from_classmap@), packages[k].install_path@, false, vendor_dir, base_dir).contains(e));
            } else {
                assert(own[i - t.len()] == e);
                assert(exclude_list(views(packages[n - 1].autoload.exclude_from_classmap@), packages[n - 1].install_path@, false, vendor_dir, base_dir).contains(e));
            }
        }
        if exists|k: int| 0 <= k < n && exclude_list(views((#[trigger] packages[k]).autoload.exclude_from_classmap@), packages[k].install_path@, false, vendor_dir, base_dir).contains(e) {
            let k = choose|k: int| 0 <= k < n && exclude_list(views((#[trigger] packages[k]).autoload.exclude_from_classmap@), packages[k].install_path@, false, vendor_dir, base_dir).contains(e);
            if k == n - 1 {
                let i = choose|i: int| 0 <= i < own.len() && own[i] == e;
                assert(r[t.len() + i] == e);
            } else {
                assert(exclude_list(views(packages[k].autoload.exclude_from_classmap@), packages[k].install_path@, false, vendor_dir, base_dir).contains(e));
                let i = choose|i: int| 0 <= i < t.len() && t[i] == e;
                assert(r[i] == e);
            }
        }
    }
}

proof fn lemma_code_paths(list: Seq<Seq<char>>, n: int, vendor_dir: Seq<char>, base_dir: Seq<char>, e: Seq<char>)
    requires
        0 <= n <= list.len(),
    ensures
        code_paths(list, n, vendor_dir, base_dir).contains(e) <==> exists|k: int|
            0 <= k < n && code_path(#[trigger] list[k], vendor_dir, base_dir) == Some(e),
    decreases n,
{
    if n > 0 {
        lemma_code_paths(list, n - 1, vendor_dir, base_dir, e);
        let t = code_paths(list, n - 1, vendor_dir, base_dir);
        let r = code_paths(list, n, vendor_dir, base_dir);
        if r.contains(e) {
            let i = choose|i: int| 0 <= i < r.len() && r[i] == e;
            if i < t.len() {
                assert(t[i] == e);
            } else {
                assert(code_path(list[n - 1], vendor_dir, base_dir) == Some(e));
            }
        }
        if t.contains(e) {
            let i = choose|i: int| 0 <= i < t.len() && t[i] == e;
            assert(r[i] == e);
        }
        if code_path(list[n - 1], vendor_dir, base_dir) == Some(e) {
            assert(r[t.len() as int] == e);
        }
    }
}

proof fn lemma_namespace_scans(d: Directories, n: int, vendor_dir: Seq<char>, base_dir: Seq<char>, e: Seq<char>)
    requires
        0 <= n <= d.len(),
    ensures
        namespace_scans(d, n, vendor_dir, base_dir).contains(e) <==> exists|k: int, m: int|
            0 <= k < n && 0 <= m < d[k].1.len() && code_path(
                #[trigger] d[k].1[m],
                vendor_dir,
                base_dir,
            ) == Some(e),
    decreases n,
{
    if n > 0 {
        lemma_namespace_scans(d, n - 1, vendor_dir, base_dir, e);
        let own = d[n - 1].1;
        lemma_code_paths(own, own.len() as int, vendor_dir, base_dir, e);
        let t = namespace_scans(d, n - 1, vendor_dir, base_dir);
        let u = code_paths(own, own.len() as int, vendor_dir, base_dir);
        let r = namespace_scans(d, n, vendor_dir, base_dir);
        assert(r == t + u);
        if r.contains(e) {
            let i = choose|i: int| 0 <= i < r.len() && r[i] == e;
            if i < t.len() {
                assert(t[i] == e);
                let (k, m) = choose|k: int, m: int|
                    0 <= k < n - 1 && 0 <= m < d[k].1.len() && code_path(
                        #[trigger] d[k].1[m],
                        vendor_dir,
                        base_dir,
                    ) == Some(e);
                assert(code_path(d[k].1[m], vendor_dir, base_dir) == Some(e));
            } else {
                assert(u[i - t.len()] == e);
                let m = choose|m: int|
                    0 <= m < own.len() && code_path(#[trigger] own[m], vendor_dir, base_dir) == Some(e);
                assert(code_path(d[n - 1].1[m], vendor_dir, base_dir) == Some(e));
            }
        }
        if exists|k: int, m: int|
            0 <= k < n && 0 <= m < d[k].1.len() && code_path(
                #[trigger] d[k].1[m],
                vendor_dir,
                base_dir,
            ) == Some(e) {
            let (k, m) = choose|k: int, m: int|
                0 <= k < n && 0 <= m < d[k].1.len() && code_path(
                    #[trigger] d[k].1[m],
                    vendor_dir,
                    base_dir,
                ) == Some(e);
            if k == n - 1 {
                assert(code_path(own[m], vendor_dir, base_dir) == Some(e));
                let i = choose|i: int| 0 <= i < u.len() && u[i] == e;
                assert(r[t.len() + i] == e);
            } else {
                assert(code_path(d[k].1[m], vendor_dir, base_dir) == Some(e));
                let i = choose|i: int| 0 <= i < t.len() && t[i] == e;
                assert(r[i] == e);
            }
        }
    }
}

proof fn lemma_seen_from(dir: Seq<char>, paths: Seq<Seq<char>>, e: Seq<char>)
    ensures
        seen_from(dir, paths).contains(e) <==> exists|m: int|
            0 <= m < paths.len() && joined_path(dir, #[trigger] paths[m]) == e,
{
    let r = seen_from(dir, paths);
    if r.contains(e) {
        let m = choose|m: int| 0 <= m < r.len() && r[m] == e;
        assert(joined_path(dir, paths[m]) == e);
    }
    if exists|m: int| 0 <= m < paths.len() && joined_path(dir, #[trigger] paths[m]) == e {
        let m = choose|m: int| 0 <= m < paths.len() && joined_path(dir, #[trigger] paths[m]) == e;
        assert(r[m] == e);
    }
}

/// Whatever a package with files names for the class map is looked through, from its own place or
/// from the project where it has none; so is what the project names; and where everything is
/// looked up beforehand, every directory of a namespace. Nothing else is looked through.
pub proof fn law_everything_named_is_looked_through(
    packages: Seq<PackageAutoload>,
    root: Option<&Autoload>,
    c: CollectedView,
    optimize: bool,
    vendor_dir: Seq<char>,
    base_dir: Seq<char>,
    e: Seq<char>,
)
    ensures
        scans(packages, root, c, optimize, vendor_dir, base_dir).contains(e) <==> (exists|
            i: int,
            m: int,
        |
            0 <= i < packages.len() && packages[i].package_type@ != "metapackage"@ && 0 <= m
                < packages[i].autoload.classmap@.len() && e == joined_path(
                if packages[i].install_path@.len() == 0 {
                    base_dir
                } else {
                    joined_path(vendor_dir, packages[i].install_path@)
                },
                #[trigger] views(packages[i].autoload.classmap@)[m],
            )) || (root matches Some(a) && exists|m: int|
            0 <= m < a.classmap@.len() && joined_path(base_dir, #[trigger] views(a.classmap@)[m])
                == e) || (optimize && exists|k: int, m: int|
            0 <= k < c.psr4.len() && 0 <= m < c.psr4[k].1.len() && code_path(
                #[trigger] c.psr4[k].1[m],
                vendor_dir,
                base_dir,
            ) == Some(e)) || (optimize && exists|k: int, m: int|
            0 <= k < c.psr0.len() && 0 <= m < c.psr0[k].1.len() && code_path(
                #[trigger] c.psr0[k].1[m],
                vendor_dir,
                base_dir,
            ) == Some(e)),
{
    let a = package_scans(packages, packages.len() as int, vendor_dir, base_dir);
    let b = match root {
        Some(r) => seen_from(base_dir, views(r.classmap@)),
        None => Seq::empty(),
    };
    let p4 = namespace_scans(c.psr4, c.psr4.len() as int, vendor_dir, base_dir);
    let p0 = namespace_scans(c.psr0, c.psr0.len() as int, vendor_dir, base_dir);
    lemma_plus(a, b, e);
    lemma_plus(a + b, p4, e);
    lemma_plus(a + b + p4, p0, e);
    lemma_package_scans(packages, vendor_dir, base_dir, packages.len() as int, e);
    lemma_namespace_scans(c.psr4, c.psr4.len() as int, vendor_dir, base_dir, e);
    lemma_namespace_scans(c.psr0, c.psr0.len() as int, vendor_dir, base_dir, e);
    if let Some(r) = root {
        lemma_seen_from(base_dir, views(r.classmap@), e);
    }
    if a.contains(e) {
        let i = choose|i: int|
            0 <= i < packages.len() && packages[i].package_type@ != "metapackage"@ && seen_from(
                if (#[trigger] packages[i]).install_path@.len() == 0 {
                    base_dir
                } else {
                    joined_path(vendor_dir, packages[i].install_path@)
                },
                views(packages[i].autoload.classmap@),
            ).contains(e);
        let place = if packages[i].install_path@.len() == 0 {
            base_dir
        } else {
            joined_path(vendor_dir, packages[i].install_path@)
        };
        lemma_seen_from(place, views(packages[i].autoload.classmap@), e);
        let m = choose|m: int|
            0 <= m < views(packages[i].autoload.classmap@).len() && joined_path(
                place,
                #[trigger] views(packages[i].autoload.classmap@)[m],
            ) == e;
        assert(e == joined_path(place, views(packages[i].autoload.classmap@)[m]));
    }
    assert forall|i: int, m: int|
        0 <= i < packages.len() && packages[i].package_type@ != "metapackage"@ && 0 <= m
            < packages[i].autoload.classmap@.len() && e == joined_path(
            if packages[i].install_path@.len() == 0 {
                base_dir
            } else {
                joined_path(vendor_dir, packages[i].install_path@)
            },
            #[trigger] views(packages[i].autoload.classmap@)[m],
        ) implies a.contains(e) by {
        let place = if packages[i].install_path@.len() == 0 {
            base_dir
        } else {
            joined_path(vendor_dir, packages[i].install_path@)
        };
        lemma_seen_from(place, views(packages[i].autoload.classmap@), e);
    }
}

/// Every class that was found is in the class map, with the code of the file where it was found
/// last; and the class that tells the installed versions is.
pub proof fn law_classes_are_mapped(classes: Pairs, i: int)
    requires
        0 <= i < classes.len(),
        forall|k: int| i < k < classes.len() ==> (#[trigger] classes[k]).0 != classes[i].0,
    ensures
        with_classes(Seq::empty(), classes, classes.len() as int).contains(classes[i]),
        ascending(pair_keys(with_classes(Seq::empty(), classes, classes.len() as int))),
        with_pair(
            with_classes(Seq::empty(), classes, classes.len() as int),
            "Composer\\InstalledVersions"@,
            "$vendorDir . '/composer/InstalledVersions.php'"@,
        ).contains(
            ("Composer\\InstalledVersions"@, "$vendorDir . '/composer/InstalledVersions.php'"@),
        ),
        classes[i].0 != "Composer\\InstalledVersions"@ ==> with_pair(
            with_classes(Seq::empty(), classes, classes.len() as int),
            "Composer\\InstalledVersions"@,
            "$vendorDir . '/composer/InstalledVersions.php'"@,
        ).contains(classes[i]),
{
    lemma_with_classes(classes, classes.len() as int, classes[i]);
    let s = with_classes(Seq::empty(), classes, classes.len() as int);
    lemma_with_pair(
        s,
        "Composer\\InstalledVersions"@,
        "$vendorDir . '/composer/InstalledVersions.php'"@,
        classes[i],
    );
    lemma_with_pair(
        s,
        "Composer\\InstalledVersions"@,
        "$vendorDir . '/composer/InstalledVersions.php'"@,
        ("Composer\\InstalledVersions"@, "$vendorDir . '/composer/InstalledVersions.php'"@),
    );
}

/// The class map holds only classes that were found.
pub proof fn law_only_found_classes_are_mapped(classes: Pairs, e: (Seq<char>, Seq<char>))
    requires
        with_classes(Seq::empty(), classes, classes.len() as int).contains(e),
    ensures
        classes.contains(e),
{
    lemma_with_classes(classes, classes.len() as int, e);
}

proof fn lemma_with_pair(s: Pairs, name: Seq<char>, value: Seq<char>, e: (Seq<char>, Seq<char>))
    requires
        ascending(pair_keys(s)),
    ensures
        ascending(pair_keys(with_pair(s, name, value))),
        with_pair(s, name, value).contains(e) <==> e == (name, value) || (e.0 != name
            && s.contains(e)),
{
    let names = pair_keys(s);
    let at = place(names, name);
    let r = with_pair(s, name, value);
    lemma_place(names, name);
    lemma_ascending(names, name);
    if is_present(names, name) {
        assert(names[at] == s[at].0);
        assert(pair_keys(r) =~= names);
    } else {
        assert(pair_keys(r) =~= names.insert(at, name));
    }
    assert(r[at] == (name, value));
    if s.contains(e) && e.0 != name {
        let k = choose|k: int| 0 <= k < s.len() && s[k] == e;
        if is_present(names, name) || k < at {
            assert(r[k] == e);
        } else {
            assert(r[k + 1] == e);
        }
    }
    if r.contains(e) && e != (name, value) {
        let k = choose|k: int| 0 <= k < r.len() && r[k] == e;
        if is_present(names, name) {
            assert(s[k] == e);
            assert(names[k] == e.0);
            if e.0 == name {
                if k < at {
                    assert(crate::text::precedes(names[k], names[at]));
                } else {
                    assert(crate::text::precedes(names[at], names[k]));
                }
                crate::text::lemma_precedes_total(name, name);
            }
        } else {
            let m = if k < at {
                k
            } else {
                k - 1
            };
            assert(s[m] == e);
            assert(names[m] == e.0);
            assert(names.contains(e.0));
        }
    }
}

proof fn lemma_with_classes(classes: Pairs, n: int, e: (Seq<char>, Seq<char>))
    requires
        0 <= n <= classes.len(),
    ensures
        ascending(pair_keys(with_classes(Seq::empty(), classes, n))),
        with_classes(Seq::empty(), classes, n).contains(e) ==> classes.contains(e),
        forall|i: int|
            0 <= i < n && (#[trigger] classes[i]) == e && (forall|k: int|
                i < k < n ==> (#[trigger] classes[k]).0 != e.0) ==> with_classes(
                Seq::empty(),
                classes,
                n,
            ).contains(e),
    decreases n,
{
    if n > 0 {
        lemma_with_classes(classes, n - 1, e);
        let t = with_classes(Seq::empty(), classes, n - 1);
        let x = classes[n - 1];
        lemma_with_pair(t, x.0, x.1, e);
        assert(classes.contains(x));
    } else {
        assert(pair_keys(Seq::<(Seq<char>, Seq<char>)>::empty()) =~= Seq::empty());
    }
}

/// Whatever a package or the project leaves out of the class map is left out, and nothing else.
pub proof fn law_every_exclusion_counts(
    packages: Seq<PackageAutoload>,
    vendor_dir: Seq<char>,
    base_dir: Seq<char>,
    e: Seq<char>,
)
    ensures
        package_excludes(packages, packages.len() as int, vendor_dir, base_dir).contains(e)
            <==> exists|i: int, m: int|
            0 <= i < packages.len() && 0 <= m < packages[i].autoload.exclude_from_classmap@.len()
                && e == wildcard_regex(
                pattern_path(
                    #[trigger] views(packages[i].autoload.exclude_from_classmap@)[m],
                    packages[i].install_path@,
                    false,
                    vendor_dir,
                    base_dir,
                ),
            ),
{
    let a = package_excludes(packages, packages.len() as int, vendor_dir, base_dir);
    lemma_package_excludes(packages, vendor_dir, base_dir, packages.len() as int, e);
    if a.contains(e) {
        let i = choose|i: int|
            0 <= i < packages.len() && exclude_list(
                views((#[trigger] packages[i]).autoload.exclude_from_classmap@),
                packages[i].install_path@,
                false,
                vendor_dir,
                base_dir,
            ).contains(e);
        let l = exclude_list(
            views(packages[i].autoload.exclude_from_classmap@),
            packages[i].install_path@,
            false,
            vendor_dir,
            base_dir,
        );
        let m = choose|m: int| 0 <= m < l.len() && l[m] == e;
        assert(e == wildcard_regex(
            pattern_path(
                views(packages[i].autoload.exclude_from_classmap@)[m],
                packages[i].install_path@,
                false,
                vendor_dir,
                base_dir,
            ),
        ));
    }
    assert forall|i: int, m: int|
        0 <= i < packages.len() && 0 <= m < packages[i].autoload.exclude_from_classmap@.len() && e
            == wildcard_regex(
            pattern_path(
                #[trigger] views(packages[i].autoload.exclude_from_classmap@)[m],
                packages[i].install_path@,
                false,
                vendor_dir,
                base_dir,
            ),
        ) implies a.contains(e) by {
        let l = exclude_list(
            views(packages[i].autoload.exclude_from_classmap@),
            packages[i].install_path@,
            false,
            vendor_dir,
            base_dir,
        );
        assert(l[m] == e);
        assert(l.contains(e));
        assert(packages[i] == packages[i]);
    }
}

// ---------------------------------------------------------------------------
// Which comes first
// ---------------------------------------------------------------------------
/// The directories under a namespace, in order.
pub open spec fn under(d: Directories, name: Seq<char>) -> Seq<Seq<char>> {
    if is_present(dir_names(d), name) {
        d[place(dir_names(d), name)].1
    } else {
        Seq::empty()
    }
}

/// The one list begins with the other.
pub open spec fn begins_with(whole: Seq<Seq<char>>, first: Seq<Seq<char>>) -> bool {
    first.len() <= whole.len() && whole.take(first.len() as int) == first
}

proof fn lemma_begins(a: Seq<Seq<char>>, b: Seq<Seq<char>>, c: Seq<Seq<char>>)
    ensures
        begins_with(a, a),
        begins_with(b, a) && begins_with(c, b) ==> begins_with(c, a),
        begins_with(a + b, a),
{
    assert(a.take(a.len() as int) =~= a);
    assert((a + b).take(a.len() as int) =~= a);
    if begins_with(b, a) && begins_with(c, b) {
        assert(c.take(a.len() as int) =~= c.take(b.len() as int).take(a.len() as int));
    }
}

proof fn lemma_under(d: Directories, name: Seq<char>, more: Seq<Seq<char>>, other: Seq<char>)
    requires
        ascending(dir_names(d)),
    ensures
        ascending(dir_names(with_directories(d, name, more))),
        under(with_directories(d, name, more), name) == under(d, name) + more,
        other != name ==> under(with_directories(d, name, more), other) == under(d, other),
{
    let names = dir_names(d);
    let r = with_directories(d, name, more);
    let at = place(names, name);
    lemma_with_directories(d, name, more, other, Seq::empty());
    lemma_place(names, name);
    lemma_place(names, other);
    lemma_place(dir_names(r), name);
    lemma_place(dir_names(r), other);
    lemma_ascending(names, name);
    lemma_ascending(names, other);
    lemma_ascending(dir_names(r), name);
    lemma_ascending(dir_names(r), other);
    if is_present(names, name) {
        assert(dir_names(r) =~= names);
        assert(r[at].1 == d[at].1 + more);
    } else {
        assert(dir_names(r) =~= names.insert(at, name));
        assert(dir_names(r)[at] == name);
        assert(dir_names(r).contains(name));
        lemma_unique(dir_names(r), at, place(dir_names(r), name));
        assert(under(d, name) + more =~= more);
        if other != name && is_present(names, other) {
            let k = place(names, other);
            let m = if k < at {
                k
            } else {
                k + 1
            };
            assert(dir_names(r)[m] == other);
            assert(dir_names(r).contains(other));
            lemma_unique(dir_names(r), m, place(dir_names(r), other));
            assert(r[m] == d[k]);
        }
        if other != name && is_present(dir_names(r), other) {
            let m = place(dir_names(r), other);
            let k = if m < at {
                m
            } else {
                m - 1
            };
            assert(names[k] == other);
            assert(names.contains(other));
        }
    }
}

proof fn lemma_unique(names: Seq<Seq<char>>, a: int, b: int)
    requires
        ascending(names),
        0 <= a < names.len(),
        0 <= b < names.len(),
        names[a] == names[b],
    ensures
        a == b,
{
    crate::text::lemma_precedes_total(names[a], names[a]);
    if a < b {
        assert(crate::text::precedes(names[a], names[b]));
    }
    if b < a {
        assert(crate::text::precedes(names[b], names[a]));
    }
}

proof fn lemma_namespaces_append(
    d: Directories,
    own: Seq<(Seq<char>, AutoloadPath)>,
    n: int,
    install_path: Seq<char>,
    is_root: bool,
    name: Seq<char>,
)
    requires
        0 <= n <= own.len(),
        ascending(dir_names(d)),
    ensures
        ascending(dir_names(with_namespaces(d, own, n, install_path, is_root))),
        begins_with(under(with_namespaces(d, own, n, install_path, is_root), name), under(d, name)),
    decreases n,
{
    lemma_begins(under(d, name), Seq::empty(), Seq::empty());
    if n > 0 {
        lemma_namespaces_append(d, own, n - 1, install_path, is_root, name);
        let t = with_namespaces(d, own, n - 1, install_path, is_root);
        let x = start_trimmed(own[n - 1].0, '\\', '\\');
        let more = codes(own[n - 1].1@, install_path, is_root);
        lemma_under(t, x, more, name);
        lemma_begins(under(t, name), more, Seq::empty());
        lemma_begins(
            under(d, name),
            under(t, name),
            under(with_directories(t, x, more), name),
        );
    }
}

/// What comes first stays first: the directories that some packages declare under a namespace
/// stand in front of those of later packages, and those of the project behind all others; and so
/// do the files.
pub proof fn law_what_comes_first_stays_first(
    packages: Seq<PackageAutoload>,
    k: int,
    root: Option<&Autoload>,
    name: Seq<char>,
)
    requires
        0 <= k <= packages.len(),
    ensures
        begins_with(
            under(collected(packages, root).psr4, name),
            under(collected(packages.take(k), None).psr4, name),
        ),
        begins_with(
            under(collected(packages, root).psr0, name),
            under(collected(packages.take(k), None).psr0, name),
        ),
        collected(packages, root).files.len() >= collected(packages.take(k), None).files.len(),
        collected(packages, root).files.take(
            collected(packages.take(k), None).files.len() as int,
        ) == collected(packages.take(k), None).files,
{
    let nothing = CollectedView { psr4: Seq::empty(), psr0: Seq::empty(), files: Seq::empty() };
    assert(dir_names(nothing.psr4) =~= Seq::empty());
    let n = packages.len() as int;
    lemma_taken(nothing, packages, k, k);
    lemma_grows(nothing, packages, k, n, name);
    let first = with_packages(nothing, packages, k);
    let c = with_packages(nothing, packages, n);
    if let Some(a) = root {
        lemma_autoload_grows(c, *a, Seq::empty(), "__root__"@, name);
        let r = collected(packages, root);
        lemma_begins(under(first.psr4, name), under(c.psr4, name), under(r.psr4, name));
        lemma_begins(under(first.psr0, name), under(c.psr0, name), under(r.psr0, name));
        assert(r.files.take(first.files.len() as int) =~= r.files.take(
            c.files.len() as int,
        ).take(first.files.len() as int));
    }
}

proof fn lemma_taken(c: CollectedView, packages: Seq<PackageAutoload>, k: int, n: int)
    requires
        0 <= n <= k <= packages.len(),
    ensures
        with_packages(c, packages.take(k), n) == with_packages(c, packages, n),
    decreases n,
{
    if n > 0 {
        lemma_taken(c, packages, k, n - 1);
        assert(packages.take(k)[n - 1] == packages[n - 1]);
    }
}

proof fn lemma_autoload_grows(
    c: CollectedView,
    a: Autoload,
    install_path: Seq<char>,
    package: Seq<char>,
    name: Seq<char>,
)
    requires
        in_order(c),
    ensures
        in_order(with_autoload(c, a, install_path, package)),
        begins_with(
            under(with_autoload(c, a, install_path, package).psr4, name),
            under(c.psr4, name),
        ),
        begins_with(
            under(with_autoload(c, a, install_path, package).psr0, name),
            under(c.psr0, name),
        ),
        with_autoload(c, a, install_path, package).files.len() >= c.files.len(),
        with_autoload(c, a, install_path, package).files.take(c.files.len() as int) == c.files,
{
    let p4 = namespaces(a.psr4);
    let p0 = namespaces(a.psr0);
    let is_root = install_path.len() == 0;
    lemma_namespaces_append(c.psr4, p4, p4.len() as int, install_path, is_root, name);
    lemma_namespaces_append(c.psr0, p0, p0.len() as int, install_path, is_root, name);
    let f = views(a.files@);
    assert(f.len() == a.files@.len());
    lemma_with_files(
        c.files,
        f,
        f.len() as int,
        package,
        install_path,
        is_root,
        (Seq::empty(), Seq::empty()),
    );
}

proof fn lemma_grows(
    c: CollectedView,
    packages: Seq<PackageAutoload>,
    k: int,
    n: int,
    name: Seq<char>,
)
    requires
        0 <= k <= n <= packages.len(),
        in_order(c),
    ensures
        in_order(with_packages(c, packages, k)),
        in_order(with_packages(c, packages, n)),
        begins_with(
            under(with_packages(c, packages, n).psr4, name),
            under(with_packages(c, packages, k).psr4, name),
        ),
        begins_with(
            under(with_packages(c, packages, n).psr0, name),
            under(with_packages(c, packages, k).psr0, name),
        ),
        with_packages(c, packages, n).files.len() >= with_packages(c, packages, k).files.len(),
        with_packages(c, packages, n).files.take(
            with_packages(c, packages, k).files.len() as int,
        ) == with_packages(c, packages, k).files,
    decreases n,
{
    let first = with_packages(c, packages, k);
    if k < n {
        lemma_grows(c, packages, k, n - 1, name);
        let t = with_packages(c, packages, n - 1);
        let p = packages[n - 1];
        let r = with_packages(c, packages, n);
        if !p.without_files() {
            lemma_autoload_grows(t, p.autoload, p.install_path@, p.name@, name);
            lemma_begins(under(first.psr4, name), under(t.psr4, name), under(r.psr4, name));
            lemma_begins(under(first.psr0, name), under(t.psr0, name), under(r.psr0, name));
            assert(r.files.take(first.files.len() as int) =~= r.files.take(
                t.files.len() as int,
            ).take(first.files.len() as int));
        }
    } else {
        lemma_with_packages(c, packages, n, name, Seq::empty(), (Seq::empty(), Seq::empty()));
        lemma_begins(under(first.psr4, name), Seq::empty(), Seq::empty());
        lemma_begins(under(first.psr0, name), Seq::empty(), Seq::empty());
        assert(first.files.take(first.files.len() as int) =~= first.files);
    }
}

} // verus!
