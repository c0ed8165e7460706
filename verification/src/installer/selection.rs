//! What was selected: for production or development, the same as before or not, and
//! the lock file that pins it.
use vstd::prelude::*;
use vstd::string::*;

use indexmap::IndexMap;

use crate::installer::closure::{
    expand_update_allowlist, is_closure, update_edge, Pool,
};
use crate::installer::loading::{link_names, linked_names};
use crate::installer::selection_laws::{
    is_update_chain, law_dependencies_of_named_packages_may_change, lemma_pinned,
};
use crate::links::{has_link, link_count, link_entry, links, no_links, set_link, with_link, Pairs};
use crate::lock::{
    default_readme, readme_lines, ComposerLock, LockAlias, LockedPackage,
};
use crate::names::{canonical, canonical_package_name, is_platform_package, platform, NameSet};
use crate::package::{Abandoned, Package};
use crate::schema::ComposerJson;
use crate::sort::{by_name, lemma_pairs_push, pairs, put_name, sort_by_name};
use crate::text::{lemma_views_push, str_equal, views};

verus! {

// ---------------------------------------------------------------------------
// Production and development
// ---------------------------------------------------------------------------
/// The package is no platform package.
pub open spec fn is_real(p: &Package) -> bool {
    !platform(p.name@)
}

/// The package is among those for production.
pub open spec fn is_for(production: Set<Seq<char>>, p: &Package) -> bool {
    production.contains(canonical(p.name@))
}

/// The packages that are no platform packages.
pub open spec fn real_packages(packages: Seq<&Package>) -> Seq<&Package> {
    packages.filter(|p: &Package| is_real(p))
}

/// The packages for production, or the others.
pub open spec fn share(packages: Seq<&Package>, production: Set<Seq<char>>, wanted: bool) -> Seq<
    &Package,
> {
    packages.filter(|p: &Package| is_for(production, p) == wanted)
}

/// The packages that are no platform packages.
pub fn without_platform<'a>(packages: &[&'a Package]) -> (r: Vec<&'a Package>)
    ensures
        r@ == real_packages(packages@),
{
    let ghost keep = |p: &Package| is_real(p);
    let mut out: Vec<&'a Package> = Vec::new();
    let mut i: usize = 0;
    proof {
        reveal(Seq::filter);
        assert(out@ =~= packages@.take(0).filter(keep));
    }
    while i < packages.len()
        invariant
            i <= packages.len(),
            keep == (|p: &Package| is_real(p)),
            out@ == packages@.take(i as int).filter(keep),
        decreases packages.len() - i,
    {
        proof {
            reveal(Seq::filter);
            assert(packages@.take(i + 1).drop_last() =~= packages@.take(i as int));
        }
        if !packages[i].is_platform_package() {
            out.push(packages[i]);
        }
        i += 1;
    }
    assert(packages@.take(i as int) =~= packages@);
    out
}

/// The packages for production, and those for development only, each in their order.
pub fn partition<'a>(packages: &[&'a Package], production: &NameSet) -> (r: (
    Vec<&'a Package>,
    Vec<&'a Package>,
))
    ensures
        r.0@ == share(packages@, production@, true),
        r.1@ == share(packages@, production@, false),
{
    let ghost yes = |p: &Package| is_for(production@, p) == true;
    let ghost no = |p: &Package| is_for(production@, p) == false;
    let mut prod: Vec<&'a Package> = Vec::new();
    let mut dev: Vec<&'a Package> = Vec::new();
    let mut i: usize = 0;
    proof {
        reveal(Seq::filter);
        assert(prod@ =~= packages@.take(0).filter(yes));
        assert(dev@ =~= packages@.take(0).filter(no));
    }
    while i < packages.len()
        invariant
            i <= packages.len(),
            yes == (|p: &Package| is_for(production@, p) == true),
            no == (|p: &Package| is_for(production@, p) == false),
            prod@ == packages@.take(i as int).filter(yes),
            dev@ == packages@.take(i as int).filter(no),
        decreases packages.len() - i,
    {
        proof {
            reveal(Seq::filter);
            assert(packages@.take(i + 1).drop_last() =~= packages@.take(i as int));
        }
        let name = canonical_package_name(packages[i].name.as_str());
        if production.contains(name.as_str()) {
            prod.push(packages[i]);
        } else {
            dev.push(packages[i]);
        }
        i += 1;
    }
    proof {
        assert(packages@.take(i as int) =~= packages@);
        let t = true;
        let f = false;
        assert((|p: &Package| is_for(production@, p) == t) == yes);
        assert((|p: &Package| is_for(production@, p) == f) == no);
    }
    (prod, dev)
}

/// The packages that get installed: without those for development where `no_dev` says so.
pub fn to_install<'a>(packages: &[&'a Package], production: &NameSet, no_dev: bool) -> (r: Vec<
    &'a Package,
>)
    ensures
        r@ == if no_dev {
            share(real_packages(packages@), production@, true)
        } else {
            real_packages(packages@)
        },
{
    let chosen = without_platform(packages);
    if no_dev {
        let (prod, _) = partition(chosen.as_slice(), production);
        prod
    } else {
        chosen
    }
}

/// A partition loses nothing: the two shares together have as many packages as were given.
pub proof fn law_partition_keeps_every_package(
    packages: Seq<&Package>,
    production: Set<Seq<char>>,
)
    ensures
        share(packages, production, true).len() + share(packages, production, false).len()
            == packages.len(),
        forall|i: int|
            0 <= i < packages.len() ==> share(packages, production, true).contains(
                #[trigger] packages[i],
            ) || share(packages, production, false).contains(packages[i]),
    decreases packages.len(),
{
    reveal(Seq::filter);
    if packages.len() > 0 {
        let head = packages.drop_last();
        let last = packages.last();
        law_partition_keeps_every_package(head, production);
        let p = share(packages, production, true);
        let d = share(packages, production, false);
        let hp = share(head, production, true);
        let hd = share(head, production, false);
        assert forall|i: int| 0 <= i < packages.len() implies p.contains(#[trigger] packages[i])
            || d.contains(packages[i]) by {
            if i == packages.len() - 1 {
                if is_for(production, last) {
                    assert(p[hp.len() as int] == last);
                } else {
                    assert(d[hd.len() as int] == last);
                }
            } else {
                assert(head[i] == packages[i]);
                if hp.contains(head[i]) {
                    let k = choose|k: int| 0 <= k < hp.len() && hp[k] == head[i];
                    assert(p[k] == packages[i]);
                } else {
                    let k = choose|k: int| 0 <= k < hd.len() && hd[k] == head[i];
                    assert(d[k] == packages[i]);
                }
            }
        }
    }
}

// ---------------------------------------------------------------------------
// Changes
// ---------------------------------------------------------------------------
/// The names and versions of packages.
pub open spec fn identities(packages: Seq<&Package>) -> Pairs {
    packages.map_values(|p: &Package| (p.name@, p.shown_version()))
}

/// The names and versions of locked packages.
pub open spec fn locked_identities(packages: Seq<LockedPackage>) -> Pairs {
    packages.map_values(|p: LockedPackage| (p.name@, p.version@))
}

fn list_changed(packages: &[&Package], locked: &[LockedPackage]) -> (r: bool)
    ensures
        r == (identities(packages@) != locked_identities(locked@)),
{
    let ghost a = identities(packages@);
    let ghost b = locked_identities(locked@);
    if packages.len() != locked.len() {
        assert(a.len() != b.len());
        return true;
    }
    let mut i: usize = 0;
    while i < packages.len()
        invariant
            i <= packages.len() == locked.len(),
            a == identities(packages@),
            b == locked_identities(locked@),
            forall|k: int| 0 <= k < i ==> a[k] == b[k],
        decreases packages.len() - i,
    {
        if !str_equal(packages[i].name.as_str(), locked[i].name.as_str()) || !str_equal(
            packages[i].pretty_version(),
            locked[i].version.as_str(),
        ) {
            assert(a[i as int] != b[i as int]);
            return true;
        }
        assert(a[i as int] == b[i as int]);
        i += 1;
    }
    assert(a =~= b);
    false
}

/// Whether the names and versions alone show that the lock file changes: those for
/// production and those for development each compared in their order.
pub fn selected_package_identities_changed(
    current: &ComposerLock,
    prod_packages: &[&Package],
    dev_packages: &[&Package],
) -> (r: bool)
    ensures
        r == (identities(prod_packages@) != locked_identities(current.packages@) || identities(
            dev_packages@,
        ) != locked_identities(current.packages_dev@)),
{
    list_changed(prod_packages, current.packages.as_slice()) || list_changed(
        dev_packages,
        current.packages_dev.as_slice(),
    )
}

/// Whether the lock file is to be written: there is none, or the new one says something
/// else. Without a new one, a dry run has shown that it changes.
pub fn lock_file_changed(new: Option<&ComposerLock>, current: Option<&ComposerLock>) -> (r: bool)
    ensures
        r == match (new, current) {
            (Some(n), Some(c)) => c.written() != n.written(),
            _ => true,
        },
{
    match (new, current) {
        (Some(n), Some(c)) => !c.equivalent_for_write(n),
        _ => true,
    }
}

// ---------------------------------------------------------------------------
// Partial updates
// ---------------------------------------------------------------------------
/// The versions of the first `n` locked packages that may not be updated.
pub open spec fn pinned(locked: Seq<LockedPackage>, n: int, allowed: Set<Seq<char>>) -> Pairs
    decreases n,
{
    if n <= 0 || n > locked.len() {
        Seq::empty()
    } else {
        let t = pinned(locked, n - 1, allowed);
        let name = canonical(locked[n - 1].name@);
        if allowed.contains(name) {
            t
        } else {
            with_link(t, name, locked[n - 1].version@)
        }
    }
}

/// The versions that a partial update keeps: those of the locked packages that may
/// not be updated.
pub fn pinned_versions(lock: &ComposerLock, allowed: &NameSet) -> (r: Vec<(String, String)>)
    ensures
        pairs(r@) == pinned(lock.all(), lock.all().len() as int, allowed@),
{
    let ghost all = lock.all();
    let mut out: Vec<(String, String)> = Vec::new();
    let mut i: usize = 0;
    assert(pairs(out@) =~= pinned(all, 0, allowed@));
    while i < lock.packages.len()
        invariant
            i <= lock.packages.len(),
            all == lock.all(),
            pairs(out@) == pinned(all, i as int, allowed@),
        decreases lock.packages.len() - i,
    {
        assert(all[i as int] == lock.packages@[i as int]);
        let name = canonical_package_name(lock.packages[i].name.as_str());
        if !allowed.contains(name.as_str()) {
            put_name(&mut out, name, lock.packages[i].version.clone());
        }
        i += 1;
    }
    let mut j: usize = 0;
    while j < lock.packages_dev.len()
        invariant
            j <= lock.packages_dev.len(),
            i == lock.packages.len(),
            all == lock.all(),
            pairs(out@) == pinned(all, i + j, allowed@),
        decreases lock.packages_dev.len() - j,
    {
        assert(all[i + j] == lock.packages_dev@[j as int]);
        let name = canonical_package_name(lock.packages_dev[j].name.as_str());
        if !allowed.contains(name.as_str()) {
            put_name(&mut out, name, lock.packages_dev[j].version.clone());
        }
        j += 1;
    }
    assert(all.len() == i + j);
    out
}

/// The canonical forms of names.
pub open spec fn canonical_set(names: Seq<Seq<char>>) -> Set<Seq<char>> {
    names.map_values(|n: Seq<char>| canonical(n)).to_set()
}

fn canonical_name_set(names: &Vec<String>) -> (r: NameSet)
    ensures
        r@ == canonical_set(views(names@)),
{
    let ghost want = views(names@).map_values(|n: Seq<char>| canonical(n));
    let mut out: Vec<String> = Vec::new();
    let mut i: usize = 0;
    while i < names.len()
        invariant
            i <= names.len(),
            want == views(names@).map_values(|n: Seq<char>| canonical(n)),
            views(out@) == want.take(i as int),
        decreases names.len() - i,
    {
        let one = canonical_package_name(names[i].as_str());
        proof {
            lemma_views_push(out@, one);
        }
        out.push(one);
        i += 1;
        assert(views(out@) =~= want.take(i as int));
    }
    assert(views(out@) =~= want);
    NameSet::from_names(out.as_slice())
}

/// Which packages a partial update may change: those that were named, and with them
/// their dependencies where that was asked for.
pub open spec fn may_change(
    named: Set<Seq<char>>,
    with_dependencies: bool,
    with_all_dependencies: bool,
    pool: Seq<Package>,
    roots: Set<Seq<char>>,
    allowed: Set<Seq<char>>,
) -> bool {
    if with_dependencies || with_all_dependencies {
        is_closure(update_edge(pool, named, roots, with_all_dependencies), named, allowed)
    } else {
        allowed == named
    }
}

/// The versions that an update keeps. With names given and a lock file there, all
/// but what may change; else none.
pub fn preferred_versions(
    update_packages: &Option<Vec<String>>,
    with_dependencies: bool,
    with_all_dependencies: bool,
    pool: &Pool,
    require: &IndexMap<String, String>,
    require_dev: &IndexMap<String, String>,
    lock: Option<&ComposerLock>,
) -> (r: Vec<(String, String)>)
    ensures
        match (*update_packages, lock) {
            (Some(names), Some(l)) => if names@.len() == 0 {
                r@.len() == 0
            } else {
                exists|allowed: Set<Seq<char>>|
                    #[trigger] may_change(
                        canonical_set(views(names@)),
                        with_dependencies,
                        with_all_dependencies,
                        pool.packages@,
                        link_names(links(*require)).union(link_names(links(*require_dev))),
                        allowed,
                    ) && pairs(r@) == pinned(l.all(), l.all().len() as int, allowed)
            },
            _ => r@.len() == 0,
        },
        match (*update_packages, lock) {
            (Some(names), Some(l)) => {
                &&& with_dependencies || with_all_dependencies ==> forall|chain: Seq<Seq<char>>|
                    #[trigger] is_update_chain(
                        chain,
                        canonical_set(views(names@)),
                        with_all_dependencies,
                        pool.packages@,
                        link_names(links(*require)).union(link_names(links(*require_dev))),
                    ) ==> !has_link(pairs(r@), chain.last())
                &&& !with_dependencies && !with_all_dependencies && names@.len() > 0 ==> forall|
                    name: Seq<char>,
                | #[trigger]
                    has_link(pairs(r@), name) <==> !canonical_set(views(names@)).contains(name)
                        && exists|k: int|
                        0 <= k < l.all().len() && canonical((#[trigger] l.all()[k]).name@) == name
            },
            _ => true,
        },
{
    if let (Some(names), Some(l)) = (update_packages, lock) {
        if names.len() > 0 {
            let explicit = canonical_name_set(names);
            let allowed = if with_dependencies || with_all_dependencies {
                let roots = linked_names(require, require_dev);
                expand_update_allowlist(pool, &explicit, &roots, with_all_dependencies)
            } else {
                explicit
            };
            let out = pinned_versions(l, &allowed);
            assert(may_change(
                canonical_set(views(names@)),
                with_dependencies,
                with_all_dependencies,
                pool.packages@,
                link_names(links(*require)).union(link_names(links(*require_dev))),
                allowed@,
            ));
            proof {
                let named = canonical_set(views(names@));
                let roots = link_names(links(*require)).union(link_names(links(*require_dev)));
                if with_dependencies || with_all_dependencies {
                    assert forall|chain: Seq<Seq<char>>| #[trigger]
                        is_update_chain(
                            chain,
                            named,
                            with_all_dependencies,
                            pool.packages@,
                            roots,
                        ) implies !has_link(pairs(out@), chain.last()) by {
                        law_dependencies_of_named_packages_may_change(
                            named,
                            with_dependencies,
                            with_all_dependencies,
                            pool.packages@,
                            roots,
                            allowed@,
                            l.all(),
                            chain,
                        );
                    }
                } else {
                    assert forall|name: Seq<char>| #[trigger]
                        has_link(pairs(out@), name) <==> !named.contains(name) && exists|k: int|
                            0 <= k < l.all().len() && canonical((#[trigger] l.all()[k]).name@)
                                == name by {
                        lemma_pinned(l.all(), l.all().len() as int, allowed@, name);
                    }
                }
            }
            return out;
        }
    }
    let none: Vec<(String, String)> = Vec::new();
    assert(forall|name: Seq<char>| !#[trigger] has_link(pairs(none@), name));
    none
}

// ---------------------------------------------------------------------------
// The lock file
// ---------------------------------------------------------------------------
/// The requirements on the platform among the first `n`.
pub open spec fn on_platform(s: Pairs, n: int) -> Pairs
    decreases n,
{
    if n <= 0 || n > s.len() {
        Seq::empty()
    } else if platform(s[n - 1].0) {
        on_platform(s, n - 1).push(s[n - 1])
    } else {
        on_platform(s, n - 1)
    }
}

proof fn lemma_on_platform(s: Pairs, n: int)
    requires
        0 <= n <= s.len(),
    ensures
        forall|i: int|
            0 <= i < on_platform(s, n).len() ==> exists|k: int|
                0 <= k < n && #[trigger] s[k] == (#[trigger] on_platform(s, n)[i]),
    decreases n,
{
    if n > 0 {
        lemma_on_platform(s, n - 1);
        let t = on_platform(s, n - 1);
        assert forall|i: int| 0 <= i < on_platform(s, n).len() implies exists|k: int|
            0 <= k < n && #[trigger] s[k] == (#[trigger] on_platform(s, n)[i]) by {
            if i < t.len() {
                let k = choose|k: int| 0 <= k < n - 1 && #[trigger] s[k] == t[i];
                assert(s[k] == on_platform(s, n)[i]);
            } else {
                assert(s[n - 1] == on_platform(s, n)[i]);
            }
        }
    }
}

/// The requirements on the platform, in the order of the manifest.
pub fn platform_requirements(m: &IndexMap<String, String>) -> (r: IndexMap<String, String>)
    ensures
        links(r) == on_platform(links(*m), links(*m).len() as int),
{
    let ghost s = links(*m);
    let n: usize = link_count(m);
    let mut out = no_links();
    let mut i: usize = 0;
    while i < n
        invariant
            i <= n == s.len(),
            s == links(*m),
            links(out) == on_platform(s, i as int),
        decreases n - i,
    {
        if let Some((name, constraint)) = link_entry(m, i) {
            if is_platform_package(name) {
                proof {
                    lemma_on_platform(s, i as int);
                    assert(!has_link(links(out), name@));
                }
                set_link(&mut out, name.to_owned(), constraint.to_owned());
            }
        }
        i += 1;
    }
    out
}

/// The lock file for a manifest and the packages that were selected for it.
pub fn new_lock(
    manifest: &ComposerJson,
    content_hash: String,
    packages: Vec<LockedPackage>,
    packages_dev: Vec<LockedPackage>,
    prefer_lowest: bool,
) -> (r: ComposerLock)
    ensures
        views(r.readme@) == readme_lines(),
        r.content_hash@ == content_hash@,
        r.packages@ == packages@,
        r.packages_dev@ == packages_dev@,
        r.aliases@.len() == 0,
        r.minimum_stability@ == match manifest.minimum_stability {
            Some(s) => s@,
            None => "stable"@,
        },
        r.stability_flags@.len() == 0,
        r.prefer_stable == (manifest.prefer_stable == Some(true)),
        r.prefer_lowest == prefer_lowest,
        links(r.platform) == on_platform(
            links(manifest.require),
            links(manifest.require).len() as int,
        ),
        links(r.platform_dev) == on_platform(
            links(manifest.require_dev),
            links(manifest.require_dev).len() as int,
        ),
        links(r.platform_overrides).len() == 0,
        r.plugin_api_version@ == "2.9.0"@,
{
    ComposerLock {
        readme: default_readme(),
        content_hash,
        packages,
        packages_dev,
        aliases: Vec::new(),
        minimum_stability: match &manifest.minimum_stability {
            Some(s) => s.clone(),
            None => "stable".to_owned(),
        },
        stability_flags: Vec::new(),
        prefer_stable: match manifest.prefer_stable {
            Some(b) => b,
            None => false,
        },
        prefer_lowest,
        platform: platform_requirements(&manifest.require),
        platform_dev: platform_requirements(&manifest.require_dev),
        platform_overrides: no_links(),
        plugin_api_version: "2.9.0".to_owned(),
    }
}

/// The aliases of a package among the first `n`.
pub open spec fn aliases_under(aliases: Seq<LockAlias>, n: int, name: Seq<char>) -> Seq<Seq<char>>
    decreases n,
{
    if n <= 0 || n > aliases.len() {
        Seq::empty()
    } else if aliases[n - 1].package@ == name {
        aliases_under(aliases, n - 1, name).push(aliases[n - 1].alias@)
    } else {
        aliases_under(aliases, n - 1, name)
    }
}

/// The aliases of a package, in the order of the lock file.
pub fn aliases_of(aliases: &Vec<LockAlias>, name: &str) -> (r: Vec<String>)
    ensures
        views(r@) == aliases_under(aliases@, aliases@.len() as int, name@),
{
    let mut out: Vec<String> = Vec::new();
    let mut i: usize = 0;
    assert(views(out@) =~= aliases_under(aliases@, 0, name@));
    while i < aliases.len()
        invariant
            i <= aliases.len(),
            views(out@) == aliases_under(aliases@, i as int, name@),
        decreases aliases.len() - i,
    {
        if str_equal(aliases[i].package.as_str(), name) {
            let one = aliases[i].alias.clone();
            proof {
                lemma_views_push(out@, one);
            }
            out.push(one);
        }
        i += 1;
    }
    out
}

// ---------------------------------------------------------------------------
// Abandoned packages
// ---------------------------------------------------------------------------
/// What is said of an abandoned package.
pub open spec fn abandoned_notice(name: Seq<char>, replacement: Option<Seq<char>>) -> Seq<char> {
    let advice = match replacement {
        Some(r) => "Use "@ + r + " instead"@,
        None => "No replacement was suggested"@,
    };
    "Package "@ + name + " is abandoned, you should avoid using it. "@ + advice + "."@
}

/// The package to use instead, where one is named.
pub open spec fn replacement_of(a: Abandoned) -> Option<Seq<char>> {
    match a {
        Abandoned::Replacement(s) => Some(s@),
        Abandoned::Bool(_) => None,
    }
}

/// The notices for the first `n` packages, each under the name of its package.
pub open spec fn notices_of(packages: Seq<&Package>, n: int) -> Pairs
    decreases n,
{
    if n <= 0 || n > packages.len() {
        Seq::empty()
    } else {
        let t = notices_of(packages, n - 1);
        let p = packages[n - 1];
        match p.abandoned {
            Some(a) => if a != Abandoned::Bool(false) && !platform(p.name@) {
                t.push((p.name@, abandoned_notice(p.name@, replacement_of(a))))
            } else {
                t
            },
            None => t,
        }
    }
}

/// What is said of the abandoned packages, in the order of their names.
pub fn audit_abandoned_packages(packages: &[&Package]) -> (r: Vec<(String, String)>)
    ensures
        pairs(r@) == by_name(notices_of(packages@, packages@.len() as int)),
{
    let mut out: Vec<(String, String)> = Vec::new();
    let mut i: usize = 0;
    assert(pairs(out@) =~= notices_of(packages@, 0));
    while i < packages.len()
        invariant
            i <= packages.len(),
            pairs(out@) == notices_of(packages@, i as int),
        decreases packages.len() - i,
    {
        let p = packages[i];
        let advice = match &p.abandoned {
            Some(Abandoned::Replacement(s)) => Some(
                "Use ".to_owned().concat(s.as_str()).concat(" instead"),
            ),
            Some(Abandoned::Bool(b)) => if *b {
                Some("No replacement was suggested".to_owned())
            } else {
                None
            },
            None => None,
        };
        if let Some(a) = advice {
            if !p.is_platform_package() {
                let notice = "Package ".to_owned().concat(p.name.as_str()).concat(
                    " is abandoned, you should avoid using it. ",
                ).concat(a.as_str()).concat(".");
                let one = (p.name.clone(), notice);
                proof {
                    lemma_pairs_push(out@, one);
                }
                out.push(one);
            }
        }
        i += 1;
    }
    sort_by_name(out)
}

} // verus!
