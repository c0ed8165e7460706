//! What a resolution comes to: which packages are for production, whether the lock file
//! changes, and what is installed.
use vstd::prelude::*;

use indexmap::IndexMap;

use crate::error::{refuse, Refusal};
use crate::installer::closure::{
    depends_on, find_transitive_dependencies, is_closure, last_named, selected_edge,
};
use crate::installer::pool::outline_suffices;
use crate::installer::selection::{
    identities, is_for, locked_identities, partition, real_packages,
    selected_package_identities_changed, share, to_install, without_platform,
};
use crate::links::{link_count, link_entry, links, Pairs};
use crate::lock::{behind, ComposerLock, LockedPackage};
use crate::names::{canonical, canonical_package_name, is_platform_package, platform, NameSet};
use crate::package::Package;

verus! {

/// The canonical names of the packages among the first `n` requirements.
pub open spec fn required_names(s: Pairs, n: int) -> Set<Seq<char>>
    decreases n,
{
    if n <= 0 || n > s.len() {
        Set::empty()
    } else {
        let t = required_names(s, n - 1);
        if platform(s[n - 1].0) {
            t
        } else {
            t.insert(canonical(s[n - 1].0))
        }
    }
}

/// The packages that the project requires for production.
pub fn production_roots(require: &IndexMap<String, String>) -> (r: NameSet)
    ensures
        r@ == required_names(links(*require), links(*require).len() as int),
{
    let n: usize = link_count(require);
    let mut out = NameSet::new();
    let mut i: usize = 0;
    while i < n
        invariant
            i <= n,
            n == links(*require).len(),
            out@ == required_names(links(*require), i as int),
        decreases n - i,
    {
        if let Some(e) = link_entry(require, i) {
            if !is_platform_package(e.0) {
                out.insert(canonical_package_name(e.0).as_str());
            }
        }
        i += 1;
    }
    out
}

/// What a resolution comes to.
#[derive(Debug)]
pub struct Settled<'a> {
    /// The packages that were selected, whose plugins are checked.
    pub selected: Vec<&'a Package>,
    /// The names that production needs.
    pub production: NameSet,
    pub prod_packages: Vec<&'a Package>,
    pub dev_packages: Vec<&'a Package>,
    /// Names and versions prove that the lock file changes.
    pub identity_changed: bool,
    /// An outline of the packages is enough.
    pub outline: bool,
    /// What is to be installed.
    pub to_install: Vec<&'a Package>,
}

/// The packages differ from those of the lock file, or there is none.
pub open spec fn differs(
    current: Option<ComposerLock>,
    prod: Seq<&Package>,
    dev: Seq<&Package>,
) -> bool {
    match current {
        Some(lock) => identities(prod) != locked_identities(lock.packages@) || identities(dev)
            != locked_identities(lock.packages_dev@),
        None => true,
    }
}

/// Settles what a resolution comes to. `selected` holds the packages that were chosen,
/// `current` is the lock file there is.
pub fn settle<'a>(
    selected: &[&'a Package],
    require: &IndexMap<String, String>,
    current: Option<&ComposerLock>,
    dry_run: bool,
    no_dev: bool,
) -> (r: Settled<'a>)
    ensures
        r.selected@ == real_packages(selected@),
        is_closure(
            selected_edge(real_packages(selected@)),
            required_names(links(*require), links(*require).len() as int),
            r.production@,
        ),
        r.prod_packages@ == share(real_packages(selected@), r.production@, true),
        r.dev_packages@ == share(real_packages(selected@), r.production@, false),
        r.identity_changed == differs(
            match current {
                Some(l) => Some(*l),
                None => None,
            },
            r.prod_packages@,
            r.dev_packages@,
        ),
        r.outline == (dry_run && r.identity_changed),
        r.to_install@ == if no_dev {
            r.prod_packages@
        } else {
            real_packages(selected@)
        },
{
    let real_ones = without_platform(selected);
    let roots = production_roots(require);
    let production = find_transitive_dependencies(real_ones.as_slice(), &roots);
    let (prod_packages, dev_packages) = partition(real_ones.as_slice(), &production);
    let identity_changed = match current {
        Some(lock) => selected_package_identities_changed(
            lock,
            prod_packages.as_slice(),
            dev_packages.as_slice(),
        ),
        None => true,
    };
    let outline = outline_suffices(dry_run, identity_changed);
    let to_install = to_install(selected, &production, no_dev);
    Settled {
        selected: real_ones,
        production,
        prod_packages,
        dev_packages,
        identity_changed,
        outline,
        to_install,
    }
}

/// The packages that an install is about: those of the lock file, without those for development
/// where `no_dev` says so. Their plugins are checked, and they get installed.
pub open spec fn locked_to_install(lock: ComposerLock, no_dev: bool) -> Seq<LockedPackage> {
    if no_dev {
        lock.packages@
    } else {
        lock.packages@ + lock.packages_dev@
    }
}

/// The packages that an install is about. Without a lock file there is nothing to install from.
pub fn packages_to_install<'a>(lock: Option<&'a ComposerLock>, no_dev: bool) -> (r: Result<
    Vec<&'a LockedPackage>,
    Refusal,
>)
    ensures
        r is Ok <==> lock is Some,
        r matches Ok(v) ==> behind(v@) == locked_to_install(*lock->0, no_dev),
        r matches Err(e) ==> e@ == "No composer.lock file found"@,
{
    let lock = match lock {
        Some(l) => l,
        None => {
            return refuse("No composer.lock file found");
        },
    };
    let mut out = lock.all_packages();
    if no_dev {
        let ghost whole = out@;
        out.truncate(lock.packages.len());
        proof {
            assert(whole.len() == behind(whole).len());
            assert forall|i: int| 0 <= i < lock.packages@.len() implies behind(out@)[i]
                == lock.packages@[i] by {
                assert(behind(whole)[i] == *whole[i]);
            }
            assert(behind(out@) =~= lock.packages@);
        }
    }
    Ok(out)
}

/// What the project requires is for production, and so is what a package for production
/// requires.
pub proof fn law_production_needs_what_it_requires(
    packages: Seq<&Package>,
    roots: Set<Seq<char>>,
    production: Set<Seq<char>>,
    i: int,
    p: &Package,
)
    requires
        is_closure(selected_edge(packages), roots, production),
        0 <= i < packages.len(),
        last_named(packages, canonical(packages[i].name@)) == i,
    ensures
        roots.contains(canonical(packages[i].name@)) ==> is_for(production, packages[i]),
        is_for(production, packages[i]) && depends_on(*packages[i], canonical(p.name@))
            ==> is_for(production, p),
{
    let edge = selected_edge(packages);
    let a = canonical(packages[i].name@);
    let b = canonical(p.name@);
    if is_for(production, packages[i]) && depends_on(*packages[i], b) {
        assert(edge(a, b));
    }
}

} // verus!
