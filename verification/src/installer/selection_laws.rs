//! What holds of a partial update and of the lock file: what was not asked for stays, and what was
//! may change.
use vstd::prelude::*;

use crate::holding::lemma_one_more;
use crate::installer::closure::{closed_under, depends_on, is_closure, selected_edge, update_edge};
use crate::installer::loading_laws::{constraint_on, lemma_sorted_holds, lemma_with_link};
use crate::installer::selection::{
    aliases_under, may_change, notices_of, on_platform, pinned, real_packages, share,
};
use crate::installer::settle::required_names;
use crate::links::{has_link, links, Pairs};
use crate::lock::{LockAlias, LockedPackage};
use crate::names::{canonical, platform};
use crate::package::{Abandoned, Package};
use crate::sort::by_name;

verus! {

/// Some package called `a` in the pool requires `b`, which is no platform package.
pub open spec fn is_required(pool: Seq<Package>, a: Seq<char>, b: Seq<char>) -> bool {
    exists|i: int, j: int|
        0 <= i < pool.len() && 0 <= j < links(pool[i].require).len() && canonical(pool[i].name@)
            == a && canonical((#[trigger] links(pool[i].require)[j]).0) == b && !platform(
            links(pool[i].require)[j].0,
        )
}

/// Names of which the first was named, and each of the others is required by the one before it
/// and is no root requirement, unless it was named or root requirements change too.
pub open spec fn is_update_chain(
    chain: Seq<Seq<char>>,
    named: Set<Seq<char>>,
    with_roots: bool,
    pool: Seq<Package>,
    roots: Set<Seq<char>>,
) -> bool {
    &&& chain.len() > 0
    &&& named.contains(chain[0])
    &&& forall|k: int|
        0 < k < chain.len() ==> is_required(pool, chain[k - 1], #[trigger] chain[k]) && (with_roots
            || !roots.contains(chain[k]) || named.contains(chain[k]))
}

proof fn lemma_edge(
    pool: Seq<Package>,
    named: Set<Seq<char>>,
    roots: Set<Seq<char>>,
    with_roots: bool,
    a: Seq<char>,
    b: Seq<char>,
)
    ensures
        update_edge(pool, named, roots, with_roots)(a, b) <==> is_required(pool, a, b) && (
        with_roots || !roots.contains(b) || named.contains(b)),
{
    if is_required(pool, a, b) {
        let (i, j) = choose|i: int, j: int|
            0 <= i < pool.len() && 0 <= j < links(pool[i].require).len() && canonical(
                pool[i].name@,
            ) == a && canonical((#[trigger] links(pool[i].require)[j]).0) == b && !platform(
                links(pool[i].require)[j].0,
            );
        assert(depends_on(pool[i], b)) by {
            assert(!platform(links(pool[i].require)[j].0));
        }
        assert(canonical(pool[i].name@) == a);
    }
    if exists|i: int|
        0 <= i < pool.len() && canonical((#[trigger] pool[i]).name@) == a && depends_on(pool[i], b) {
        let i = choose|i: int|
            0 <= i < pool.len() && canonical((#[trigger] pool[i]).name@) == a && depends_on(
                pool[i],
                b,
            );
        let j = choose|j: int|
            0 <= j < links(pool[i].require).len() && !platform(
                (#[trigger] links(pool[i].require)[j]).0,
            ) && canonical(links(pool[i].require)[j].0) == b;
        assert(canonical(links(pool[i].require)[j].0) == b);
    }
}

proof fn lemma_chain_allowed(
    chain: Seq<Seq<char>>,
    n: int,
    named: Set<Seq<char>>,
    with_roots: bool,
    pool: Seq<Package>,
    roots: Set<Seq<char>>,
    allowed: Set<Seq<char>>,
)
    requires
        is_update_chain(chain, named, with_roots, pool, roots),
        is_closure(update_edge(pool, named, roots, with_roots), named, allowed),
        0 <= n < chain.len(),
    ensures
        allowed.contains(chain[n]),
    decreases n,
{
    if n > 0 {
        lemma_chain_allowed(chain, n - 1, named, with_roots, pool, roots, allowed);
        lemma_edge(pool, named, roots, with_roots, chain[n - 1], chain[n]);
        assert(is_required(pool, chain[n - 1], chain[n]));
        let edge = update_edge(pool, named, roots, with_roots);
        assert(edge(chain[n - 1], chain[n]));
    }
}

pub proof fn lemma_pinned(
    locked: Seq<LockedPackage>,
    n: int,
    allowed: Set<Seq<char>>,
    name: Seq<char>,
)
    requires
        0 <= n <= locked.len(),
    ensures
        has_link(pinned(locked, n, allowed), name) <==> !allowed.contains(name) && exists|k: int|
            0 <= k < n && canonical((#[trigger] locked[k]).name@) == name,
        has_link(pinned(locked, n, allowed), name) ==> exists|k: int|
            0 <= k < n && canonical((#[trigger] locked[k]).name@) == name && constraint_on(
                pinned(locked, n, allowed),
                name,
            ) == locked[k].version@,
    decreases n,
{
    if n > 0 {
        lemma_pinned(locked, n - 1, allowed, name);
        let t = pinned(locked, n - 1, allowed);
        let own = canonical(locked[n - 1].name@);
        lemma_with_link(t, own, locked[n - 1].version@, name);
        if has_link(pinned(locked, n, allowed), name) {
            if own == name {
                assert(canonical(locked[n - 1].name@) == name);
            } else {
                let k = choose|k: int|
                    0 <= k < n - 1 && canonical((#[trigger] locked[k]).name@) == name
                        && constraint_on(t, name) == locked[k].version@;
                assert(canonical(locked[k].name@) == name);
            }
        }
    }
}

/// With dependencies, with or without root requirements, nothing is kept at its version that the
/// named packages lead to over the requirements of packages in the pool.
pub proof fn law_dependencies_of_named_packages_may_change(
    named: Set<Seq<char>>,
    with_dependencies: bool,
    with_all_dependencies: bool,
    pool: Seq<Package>,
    roots: Set<Seq<char>>,
    allowed: Set<Seq<char>>,
    locked: Seq<LockedPackage>,
    chain: Seq<Seq<char>>,
)
    requires
        may_change(named, with_dependencies, with_all_dependencies, pool, roots, allowed),
        with_dependencies || with_all_dependencies,
        is_update_chain(chain, named, with_all_dependencies, pool, roots),
    ensures
        !has_link(pinned(locked, locked.len() as int, allowed), chain.last()),
{
    lemma_chain_allowed(
        chain,
        chain.len() - 1,
        named,
        with_all_dependencies,
        pool,
        roots,
        allowed,
    );
    lemma_pinned(locked, locked.len() as int, allowed, chain.last());
}

/// A locked package that an update does not lead to keeps its version: one outside of some set
/// that holds the named packages and out of which, over the requirements of packages in the pool,
/// nothing leads that may change. Without dependencies that is every package that was not named.
pub proof fn law_other_packages_keep_their_versions(
    named: Set<Seq<char>>,
    with_dependencies: bool,
    with_all_dependencies: bool,
    pool: Seq<Package>,
    roots: Set<Seq<char>>,
    allowed: Set<Seq<char>>,
    locked: Seq<LockedPackage>,
    within: Set<Seq<char>>,
    i: int,
)
    requires
        may_change(named, with_dependencies, with_all_dependencies, pool, roots, allowed),
        named.subset_of(within),
        with_dependencies || with_all_dependencies ==> forall|a: Seq<char>, b: Seq<char>|
            within.contains(a) && #[trigger] is_required(pool, a, b) && (with_all_dependencies
                || !roots.contains(b) || named.contains(b)) ==> within.contains(b),
        0 <= i < locked.len(),
        !within.contains(canonical(locked[i].name@)),
    ensures
        has_link(pinned(locked, locked.len() as int, allowed), canonical(locked[i].name@)),
        (forall|k: int|
            0 <= k < locked.len() && canonical((#[trigger] locked[k]).name@) == canonical(
                locked[i].name@,
            ) ==> k == i) ==> constraint_on(
            pinned(locked, locked.len() as int, allowed),
            canonical(locked[i].name@),
        ) == locked[i].version@,
{
    let name = canonical(locked[i].name@);
    if with_dependencies || with_all_dependencies {
        let edge = update_edge(pool, named, roots, with_all_dependencies);
        assert(closed_under(edge, within)) by {
            assert forall|a: Seq<char>, b: Seq<char>| within.contains(a) && #[trigger] edge(
                a,
                b,
            ) implies within.contains(b) by {
                lemma_edge(pool, named, roots, with_all_dependencies, a, b);
            }
        }
        assert(allowed.subset_of(within));
    }
    lemma_pinned(locked, locked.len() as int, allowed, name);
    assert(canonical(locked[i].name@) == name);
}

/// What was named may always change, and nothing is kept that is not locked.
pub proof fn law_named_packages_may_change(
    named: Set<Seq<char>>,
    with_dependencies: bool,
    with_all_dependencies: bool,
    pool: Seq<Package>,
    roots: Set<Seq<char>>,
    allowed: Set<Seq<char>>,
    locked: Seq<LockedPackage>,
    name: Seq<char>,
)
    requires
        may_change(named, with_dependencies, with_all_dependencies, pool, roots, allowed),
    ensures
        named.contains(name) ==> !has_link(pinned(locked, locked.len() as int, allowed), name),
        has_link(pinned(locked, locked.len() as int, allowed), name) ==> exists|k: int|
            0 <= k < locked.len() && canonical((#[trigger] locked[k]).name@) == name,
{
    lemma_pinned(locked, locked.len() as int, allowed, name);
}

// ---------------------------------------------------------------------------
// Production and development
// ---------------------------------------------------------------------------
proof fn lemma_required_names(s: Pairs, n: int, name: Seq<char>)
    requires
        0 <= n <= s.len(),
    ensures
        required_names(s, n).contains(name) <==> exists|k: int|
            0 <= k < n && canonical((#[trigger] s[k]).0) == name && !platform(s[k].0),
    decreases n,
{
    if n > 0 {
        lemma_required_names(s, n - 1, name);
    }
}

/// Production starts with all that the project requires, platform packages aside, and with
/// nothing else.
pub proof fn law_production_starts_with_requirements(require: Pairs, name: Seq<char>)
    ensures
        required_names(require, require.len() as int).contains(name) <==> exists|k: int|
            0 <= k < require.len() && canonical((#[trigger] require[k]).0) == name && !platform(
                require[k].0,
            ),
{
    lemma_required_names(require, require.len() as int, name);
}

/// Nothing is for production that the project does not lead to: not what is outside of a set that
/// holds the requirements of the project and, with a package, all that it requires.
pub proof fn law_the_rest_is_for_development(
    packages: Seq<&Package>,
    roots: Set<Seq<char>>,
    production: Set<Seq<char>>,
    within: Set<Seq<char>>,
    name: Seq<char>,
)
    requires
        is_closure(selected_edge(packages), roots, production),
        roots.subset_of(within),
        forall|i: int, j: int|
            0 <= i < packages.len() && 0 <= j < links(packages[i].require).len() && within.contains(
                canonical(packages[i].name@),
            ) && !platform((#[trigger] links(packages[i].require)[j]).0) ==> within.contains(
                canonical(links(packages[i].require)[j].0),
            ),
        !within.contains(name),
    ensures
        !production.contains(name),
{
    let edge = selected_edge(packages);
    assert(closed_under(edge, within)) by {
        assert forall|a: Seq<char>, b: Seq<char>| within.contains(a) && #[trigger] edge(
            a,
            b,
        ) implies within.contains(b) by {
            let i = crate::installer::closure::last_named(packages, a);
            crate::installer::closure::lemma_last_named(packages, a);
            let p = *packages[i];
            let j = choose|j: int|
                0 <= j < links(p.require).len() && !platform((#[trigger] links(p.require)[j]).0)
                    && canonical(links(p.require)[j].0) == b;
            assert(links(packages[i].require)[j] == links(p.require)[j]);
        }
    }
    assert(production.subset_of(within));
}

/// Platform packages are neither locked nor installed, and every other package that was selected
/// is; a package is for production or for development, never for both.
pub proof fn law_selected_packages_are_kept(
    packages: Seq<&Package>,
    production: Set<Seq<char>>,
    p: &Package,
)
    ensures
        real_packages(packages).contains(p) <==> packages.contains(p) && !platform(p.name@),
        share(packages, production, true).contains(p) <==> packages.contains(p)
            && production.contains(canonical(p.name@)),
        share(packages, production, false).contains(p) <==> packages.contains(p)
            && !production.contains(canonical(p.name@)),
{
    let no_platform = |q: &Package| crate::installer::selection::is_real(q);
    let t = true;
    let f = false;
    let yes = |q: &Package| crate::installer::selection::is_for(production, q) == t;
    let no = |q: &Package| crate::installer::selection::is_for(production, q) == f;
    lemma_filter(packages, no_platform, p);
    lemma_filter(packages, yes, p);
    lemma_filter(packages, no, p);
}

proof fn lemma_filter(s: Seq<&Package>, keep: spec_fn(&Package) -> bool, p: &Package)
    ensures
        s.filter(keep).contains(p) <==> s.contains(p) && keep(p),
    decreases s.len(),
{
    reveal(Seq::filter);
    if s.len() > 0 {
        lemma_filter(s.drop_last(), keep, p);
        assert(s =~= s.drop_last().push(s.last()));
        lemma_one_more(s.drop_last(), s.last(), p);
        lemma_one_more(s.drop_last().filter(keep), s.last(), p);
    }
}

proof fn lemma_on_platform_holds(s: Pairs, n: int, e: (Seq<char>, Seq<char>))
    requires
        0 <= n <= s.len(),
    ensures
        on_platform(s, n).contains(e) <==> exists|k: int| 0 <= k < n && (#[trigger] s[k]) == e && platform(s[k].0),
    decreases n,
{
    if n > 0 {
        lemma_on_platform_holds(s, n - 1, e);
        let t = on_platform(s, n - 1);
        let r = on_platform(s, n);
        if r.contains(e) {
            let i = choose|i: int| 0 <= i < r.len() && r[i] == e;
            if i < t.len() {
                assert(t[i] == e);
                let k = choose|k: int| 0 <= k < n - 1 && (#[trigger] s[k]) == e && platform(s[k].0);
                assert(s[k] == e);
            } else {
                assert(s[n - 1] == e);
            }
        }
        if exists|k: int| 0 <= k < n && (#[trigger] s[k]) == e && platform(s[k].0) {
            let k = choose|k: int| 0 <= k < n && (#[trigger] s[k]) == e && platform(s[k].0);
            if k == n - 1 {
                assert(r[t.len() as int] == e);
            } else {
                assert(s[k] == e);
                let i = choose|i: int| 0 <= i < t.len() && t[i] == e;
                assert(r[i] == e);
            }
        }
    }
}

/// The lock file holds every requirement on the platform, with its constraint, and no other.
pub proof fn law_platform_requirements_are_locked(require: Pairs, e: (Seq<char>, Seq<char>))
    ensures
        on_platform(require, require.len() as int).contains(e) <==> require.contains(e) && platform(
            e.0,
        ),
{
    lemma_on_platform_holds(require, require.len() as int, e);
    if require.contains(e) {
        let k = choose|k: int| 0 <= k < require.len() && require[k] == e;
        assert(require[k] == e);
    }
}

proof fn lemma_aliases_under(aliases: Seq<LockAlias>, name: Seq<char>, n: int, e: Seq<char>)
    requires
        0 <= n <= aliases.len(),
    ensures
        aliases_under(aliases, n, name).contains(e) <==> exists|k: int| 0 <= k < n && (#[trigger] aliases[k]).alias@ == e && aliases[k].package@ == name,
    decreases n,
{
    if n > 0 {
        lemma_aliases_under(aliases, name, n - 1, e);
        let t = aliases_under(aliases, n - 1, name);
        let r = aliases_under(aliases, n, name);
        if r.contains(e) {
            let i = choose|i: int| 0 <= i < r.len() && r[i] == e;
            if i < t.len() {
                assert(t[i] == e);
                let k = choose|k: int| 0 <= k < n - 1 && (#[trigger] aliases[k]).alias@ == e && aliases[k].package@ == name;
                assert(aliases[k].alias@ == e);
            } else {
                assert(aliases[n - 1].alias@ == e);
            }
        }
        if exists|k: int| 0 <= k < n && (#[trigger] aliases[k]).alias@ == e && aliases[k].package@ == name {
            let k = choose|k: int| 0 <= k < n && (#[trigger] aliases[k]).alias@ == e && aliases[k].package@ == name;
            if k == n - 1 {
                assert(r[t.len() as int] == e);
            } else {
                assert(aliases[k].alias@ == e);
                let i = choose|i: int| 0 <= i < t.len() && t[i] == e;
                assert(r[i] == e);
            }
        }
    }
}

/// A package has every alias that the lock file notes under its name, and no other.
pub proof fn law_aliases_belong_to_their_package(
    aliases: Seq<LockAlias>,
    name: Seq<char>,
    alias: Seq<char>,
)
    ensures
        aliases_under(aliases, aliases.len() as int, name).contains(alias) <==> exists|k: int|
            0 <= k < aliases.len() && (#[trigger] aliases[k]).alias@ == alias && aliases[k].package@
                == name,
{
    lemma_aliases_under(aliases, name, aliases.len() as int, alias);
}

/// Every abandoned package is named to the user, with what to use instead where that is known;
/// platform packages are not, and no other package is.
pub proof fn law_abandoned_packages_are_named(packages: Seq<&Package>, e: (Seq<char>, Seq<char>))
    ensures
        by_name(notices_of(packages, packages.len() as int)).contains(e) <==> exists|k: int|
            0 <= k < packages.len() && (#[trigger] packages[k]).name@ == e.0 && !platform(e.0) && (
            packages[k].abandoned matches Some(a) && (match a {
                Abandoned::Replacement(s) => e.1 == "Package "@ + e.0
                    + " is abandoned, you should avoid using it. "@ + ("Use "@ + s@ + " instead"@)
                    + "."@,
                Abandoned::Bool(b) => b && e.1 == "Package "@ + e.0
                    + " is abandoned, you should avoid using it. "@
                    + "No replacement was suggested"@ + "."@,
            })),
{
    let s = notices_of(packages, packages.len() as int);
    lemma_sorted_holds(s, e);
    lemma_notices(packages, packages.len() as int, e);
}

proof fn lemma_notices(packages: Seq<&Package>, n: int, e: (Seq<char>, Seq<char>))
    requires
        0 <= n <= packages.len(),
    ensures
        notices_of(packages, n).contains(e) <==> exists|k: int|
            0 <= k < n && (#[trigger] packages[k]).name@ == e.0 && !platform(e.0) && (
            packages[k].abandoned matches Some(a) && (match a {
                Abandoned::Replacement(s) => e.1 == "Package "@ + e.0
                    + " is abandoned, you should avoid using it. "@ + ("Use "@ + s@ + " instead"@)
                    + "."@,
                Abandoned::Bool(b) => b && e.1 == "Package "@ + e.0
                    + " is abandoned, you should avoid using it. "@
                    + "No replacement was suggested"@ + "."@,
            })),
    decreases n,
{
    if n > 0 {
        lemma_notices(packages, n - 1, e);
        let p = packages[n - 1];
        let t = notices_of(packages, n - 1);
        let text = match p.abandoned {
            Some(a) => crate::installer::selection::abandoned_notice(
                p.name@,
                crate::installer::selection::replacement_of(a),
            ),
            None => Seq::empty(),
        };
        lemma_one_more(t, (p.name@, text), e);
        assert(packages[n - 1] == p);
    }
}

} // verus!
