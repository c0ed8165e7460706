//! What holds of the loading of packages: what is required is asked for, and nothing else.
use vstd::prelude::*;

use crate::installer::loading::{
    absorbed, added_pending, all_added, batch, behind_at, flags, new_dependencies, new_links,
    required_pending, root_pending, solvable, stability_flag, stability_of, unloaded,
    with_constraint, Stability,
};
use crate::links::{has_link, lemma_link_at, link_at, links, with_link, Pairs};
use crate::names::{canonical, platform};
use crate::package::Package;
use crate::sort::{by_name, law_sorting_orders_and_keeps, ordered};
use crate::text::{after, ascii_lower, joined, precedes};

verus! {

/// The constraint is one of those in a text, which stand next to one another with ` || ` between
/// them.
pub open spec fn is_alternative(constraint: Seq<char>, text: Seq<char>) -> bool {
    exists|parts: Seq<Seq<char>>|
        parts.contains(constraint) && text == #[trigger] joined(parts, " || "@)
}

/// What is asked of a name.
pub open spec fn constraint_on(s: Pairs, name: Seq<char>) -> Seq<char> {
    s[link_at(s, name)].1
}

/// No name stands twice.
pub open spec fn single(s: Pairs) -> bool {
    forall|i: int, j: int| 0 <= i < j < s.len() ==> #[trigger] s[i].0 != #[trigger] s[j].0
}

proof fn lemma_alone(constraint: Seq<char>)
    ensures
        is_alternative(constraint, constraint),
{
    let parts = seq![constraint];
    assert(parts[0] == constraint);
    assert(joined(parts, " || "@) == constraint);
    assert(parts.contains(constraint));
}

proof fn lemma_one_more(text: Seq<char>, more: Seq<char>)
    ensures
        is_alternative(more, text + " || "@ + more),
        forall|c: Seq<char>| #[trigger]
            is_alternative(c, text) ==> is_alternative(c, text + " || "@ + more),
{
    let two = seq![text, more];
    assert(two.drop_last() =~= seq![text]);
    assert(joined(two.drop_last(), " || "@) == text);
    assert(joined(two, " || "@) == text + " || "@ + more);
    assert(two[1] == more);
    assert(two.contains(more));
    assert forall|c: Seq<char>| #[trigger] is_alternative(c, text) implies is_alternative(
        c,
        text + " || "@ + more,
    ) by {
        let parts = choose|parts: Seq<Seq<char>>|
            parts.contains(c) && text == #[trigger] joined(parts, " || "@);
        let all = parts.push(more);
        assert(all.drop_last() =~= parts);
        let k = choose|k: int| 0 <= k < parts.len() && parts[k] == c;
        assert(all[k] == c);
        assert(joined(all, " || "@) == text + " || "@ + more);
    }
}

pub proof fn lemma_with_link(s: Pairs, name: Seq<char>, value: Seq<char>, other: Seq<char>)
    ensures
        has_link(with_link(s, name, value), other) == (has_link(s, other) || other == name),
        constraint_on(with_link(s, name, value), name) == value,
        other != name && has_link(s, other) ==> constraint_on(with_link(s, name, value), other)
            == constraint_on(s, other),
        single(s) ==> single(with_link(s, name, value)),
{
    let t = with_link(s, name, value);
    lemma_link_at(s, name);
    lemma_link_at(s, other);
    let at = link_at(s, name);
    if has_link(s, name) {
        assert forall|k: int| 0 <= k < s.len() implies (#[trigger] t[k]).0 == s[k].0 by {}
        assert(t[at].0 == name);
    } else {
        assert forall|k: int| 0 <= k < s.len() implies #[trigger] t[k] == s[k] by {}
        assert(t[s.len() as int] == (name, value));
    }
    lemma_first_at(t, name, if has_link(s, name) {
        at
    } else {
        s.len() as int
    });
    if other != name {
        if has_link(s, other) {
            lemma_first_at(t, other, link_at(s, other));
        } else if has_link(t, other) {
            let k = choose|k: int| 0 <= k < t.len() && #[trigger] t[k].0 == other;
            if k < s.len() {
                assert(s[k].0 == other);
            }
        }
    }
    if single(s) {
        assert forall|i: int, j: int| 0 <= i < j < t.len() implies #[trigger] t[i].0
            != #[trigger] t[j].0 by {
            if j < s.len() {
                assert(s[i].0 != s[j].0);
            } else {
                assert(s[i].0 != name);
            }
        }
    }
}

proof fn lemma_first_at(s: Pairs, name: Seq<char>, at: int)
    requires
        0 <= at < s.len(),
        s[at].0 == name,
        forall|k: int| 0 <= k < at ==> (#[trigger] s[k]).0 != name,
    ensures
        link_at(s, name) == at,
        has_link(s, name),
{
    lemma_link_at(s, name);
    assert(has_link(s, name));
    if link_at(s, name) > at {
        assert(s[at].0 != name);
    }
    if link_at(s, name) < at {
        assert(s[link_at(s, name)].0 != name);
    }
}

proof fn lemma_with_constraint(s: Pairs, name: Seq<char>, c: Seq<char>, other: Seq<char>)
    ensures
        has_link(with_constraint(s, name, c), other) == (has_link(s, other) || other == name),
        is_alternative(c, constraint_on(with_constraint(s, name, c), name)),
        forall|d: Seq<char>|
            has_link(s, name) && #[trigger] is_alternative(d, constraint_on(s, name))
                ==> is_alternative(d, constraint_on(with_constraint(s, name, c), name)),
        !has_link(s, name) ==> constraint_on(with_constraint(s, name, c), name) == c,
        other != name && has_link(s, other) ==> constraint_on(with_constraint(s, name, c), other)
            == constraint_on(s, other),
        single(s) ==> single(with_constraint(s, name, c)),
{
    lemma_alone(c);
    if has_link(s, name) {
        lemma_with_link(s, name, constraint_on(s, name) + " || "@ + c, other);
        lemma_one_more(constraint_on(s, name), c);
    } else {
        lemma_with_link(s, name, c, other);
        assert(with_constraint(s, name, c) == with_link(s, name, c));
    }
}

proof fn lemma_all_added(start: Pairs, s: Pairs, n: int, name: Seq<char>)
    requires
        0 <= n <= s.len(),
    ensures
        has_link(start, name) ==> has_link(all_added(start, s, n), name),
        has_link(all_added(start, s, n), name) ==> has_link(start, name) || exists|k: int|
            0 <= k < n && (#[trigger] s[k]).0 == name,
        forall|k: int|
            0 <= k < n && (#[trigger] s[k]).0 == name ==> has_link(all_added(start, s, n), name)
                && is_alternative(s[k].1, constraint_on(all_added(start, s, n), name)),
        has_link(start, name) ==> is_alternative(
            constraint_on(start, name),
            constraint_on(all_added(start, s, n), name),
        ),
        has_link(start, name) && (forall|k: int| 0 <= k < n ==> (#[trigger] s[k]).0 != name)
            ==> constraint_on(all_added(start, s, n), name) == constraint_on(start, name),
        single(start) ==> single(all_added(start, s, n)),
    decreases n,
{
    if n > 0 {
        lemma_all_added(start, s, n - 1, name);
        let t = all_added(start, s, n - 1);
        lemma_with_constraint(t, s[n - 1].0, s[n - 1].1, name);
        let r = all_added(start, s, n);
        assert forall|k: int| 0 <= k < n && (#[trigger] s[k]).0 == name implies has_link(r, name)
            && is_alternative(s[k].1, constraint_on(r, name)) by {}
        if has_link(r, name) && !has_link(start, name) && s[n - 1].0 != name {
            let k = choose|k: int| 0 <= k < n - 1 && (#[trigger] s[k]).0 == name;
            assert(s[k].0 == name);
        }
        if forall|k: int| 0 <= k < n ==> (#[trigger] s[k]).0 != name {
            assert(s[n - 1].0 != name);
        }
    } else {
        lemma_alone(constraint_on(start, name));
    }
}

proof fn lemma_new_links(s: Pairs, n: int, loaded: Set<Seq<char>>, e: (Seq<char>, Seq<char>))
    requires
        0 <= n <= s.len(),
    ensures
        new_links(s, n, loaded).contains(e) <==> exists|j: int|
            0 <= j < n && !platform((#[trigger] s[j]).0) && canonical(s[j].0) == e.0 && s[j].1
                == e.1 && !loaded.contains(e.0),
    decreases n,
{
    if n > 0 {
        lemma_new_links(s, n - 1, loaded, e);
        let t = new_links(s, n - 1, loaded);
        let r = new_links(s, n, loaded);
        if r.contains(e) {
            let k = choose|k: int| 0 <= k < r.len() && r[k] == e;
            if k < t.len() {
                assert(t[k] == e);
                let j = choose|j: int|
                    0 <= j < n - 1 && !platform((#[trigger] s[j]).0) && canonical(s[j].0) == e.0
                        && s[j].1 == e.1 && !loaded.contains(e.0);
                assert(s[j].1 == e.1);
            } else {
                assert(s[n - 1].1 == e.1);
            }
        }
        if exists|j: int|
            0 <= j < n && !platform((#[trigger] s[j]).0) && canonical(s[j].0) == e.0 && s[j].1
                == e.1 && !loaded.contains(e.0) {
            let j = choose|j: int|
                0 <= j < n && !platform((#[trigger] s[j]).0) && canonical(s[j].0) == e.0 && s[j].1
                    == e.1 && !loaded.contains(e.0);
            if j == n - 1 {
                assert(r[t.len() as int] == e);
            } else {
                assert(s[j].1 == e.1);
                let k = choose|k: int| 0 <= k < t.len() && t[k] == e;
                assert(r[k] == e);
            }
        }
    }
}

proof fn lemma_new_dependencies(
    packages: Seq<Package>,
    n: int,
    loaded: Set<Seq<char>>,
    e: (Seq<char>, Seq<char>),
)
    requires
        0 <= n <= packages.len(),
    ensures
        new_dependencies(packages, n, loaded).contains(e) <==> exists|i: int, j: int|
            0 <= i < n && 0 <= j < links(packages[i].require).len() && !platform(
                (#[trigger] links(packages[i].require)[j]).0,
            ) && canonical(links(packages[i].require)[j].0) == e.0
                && links(packages[i].require)[j].1 == e.1 && !loaded.contains(e.0),
    decreases n,
{
    if n > 0 {
        lemma_new_dependencies(packages, n - 1, loaded, e);
        let own = links(packages[n - 1].require);
        lemma_new_links(own, own.len() as int, loaded, e);
        let a = new_dependencies(packages, n - 1, loaded);
        let b = new_links(own, own.len() as int, loaded);
        let r = new_dependencies(packages, n, loaded);
        assert(r == a + b);
        if r.contains(e) {
            let k = choose|k: int| 0 <= k < r.len() && r[k] == e;
            if k < a.len() {
                assert(a[k] == e);
                let (i, j) = choose|i: int, j: int|
                    0 <= i < n - 1 && 0 <= j < links(packages[i].require).len() && !platform(
                        (#[trigger] links(packages[i].require)[j]).0,
                    ) && canonical(links(packages[i].require)[j].0) == e.0
                        && links(packages[i].require)[j].1 == e.1 && !loaded.contains(e.0);
                assert(links(packages[i].require)[j].1 == e.1);
            } else {
                assert(b[k - a.len()] == e);
                let j = choose|j: int|
                    0 <= j < own.len() && !platform((#[trigger] own[j]).0) && canonical(own[j].0)
                        == e.0 && own[j].1 == e.1 && !loaded.contains(e.0);
                assert(links(packages[n - 1].require)[j].1 == e.1);
            }
        }
        if exists|i: int, j: int|
            0 <= i < n && 0 <= j < links(packages[i].require).len() && !platform(
                (#[trigger] links(packages[i].require)[j]).0,
            ) && canonical(links(packages[i].require)[j].0) == e.0
                && links(packages[i].require)[j].1 == e.1 && !loaded.contains(e.0) {
            let (i, j) = choose|i: int, j: int|
                0 <= i < n && 0 <= j < links(packages[i].require).len() && !platform(
                    (#[trigger] links(packages[i].require)[j]).0,
                ) && canonical(links(packages[i].require)[j].0) == e.0
                    && links(packages[i].require)[j].1 == e.1 && !loaded.contains(e.0);
            if i == n - 1 {
                assert(own[j].1 == e.1);
                let k = choose|k: int| 0 <= k < b.len() && b[k] == e;
                assert(r[a.len() + k] == e);
            } else {
                assert(links(packages[i].require)[j].1 == e.1);
                let k = choose|k: int| 0 <= k < a.len() && a[k] == e;
                assert(r[k] == e);
            }
        }
    }
}

pub proof fn lemma_sorted_holds(s: Pairs, e: (Seq<char>, Seq<char>))
    ensures
        by_name(s).contains(e) == s.contains(e),
        by_name(s).len() == s.len(),
{
    broadcast use vstd::seq_lib::group_to_multiset_ensures;

    law_sorting_orders_and_keeps(s);
    assert(by_name(s).to_multiset().count(e) == s.to_multiset().count(e));
}

/// Whatever a package of a batch requires is asked of the repositories next, with its constraint,
/// unless it is a platform package or was loaded: that of every package, not of some.
pub proof fn law_every_requirement_is_asked_for(
    pending: Pairs,
    packages: Seq<Package>,
    loaded: Set<Seq<char>>,
    i: int,
    j: int,
)
    requires
        0 <= i < packages.len(),
        0 <= j < links(packages[i].require).len(),
        !platform(links(packages[i].require)[j].0),
        !loaded.contains(canonical(links(packages[i].require)[j].0)),
    ensures
        has_link(absorbed(pending, packages, loaded), canonical(links(packages[i].require)[j].0)),
        is_alternative(
            links(packages[i].require)[j].1,
            constraint_on(
                absorbed(pending, packages, loaded),
                canonical(links(packages[i].require)[j].0),
            ),
        ),
{
    let e = (canonical(links(packages[i].require)[j].0), links(packages[i].require)[j].1);
    let found = new_dependencies(packages, packages.len() as int, loaded);
    lemma_new_dependencies(packages, packages.len() as int, loaded, e);
    assert(found.contains(e));
    lemma_sorted_holds(found, e);
    let s = by_name(found);
    let k = choose|k: int| 0 <= k < s.len() && s[k] == e;
    lemma_all_added(pending, s, s.len() as int, e.0);
    assert(s[k].0 == e.0);
}

/// Nothing else is asked of the repositories: a name that is pending was so before, or a package
/// of the batch requires it and it is neither a platform package nor loaded. What was pending
/// stays, and where no package of the batch requires it, with the same constraint.
pub proof fn law_only_requirements_are_asked_for(
    pending: Pairs,
    packages: Seq<Package>,
    loaded: Set<Seq<char>>,
    name: Seq<char>,
)
    ensures
        has_link(absorbed(pending, packages, loaded), name) && !has_link(pending, name) ==> exists|
            i: int,
            j: int,
        |
            0 <= i < packages.len() && 0 <= j < links(packages[i].require).len() && !platform(
                (#[trigger] links(packages[i].require)[j]).0,
            ) && canonical(links(packages[i].require)[j].0) == name && !loaded.contains(name),
        has_link(pending, name) ==> has_link(absorbed(pending, packages, loaded), name)
            && is_alternative(
            constraint_on(pending, name),
            constraint_on(absorbed(pending, packages, loaded), name),
        ),
        has_link(pending, name) && (forall|i: int, j: int|
            0 <= i < packages.len() && 0 <= j < links(packages[i].require).len() ==> canonical(
                (#[trigger] links(packages[i].require)[j]).0,
            ) != name) ==> constraint_on(absorbed(pending, packages, loaded), name)
            == constraint_on(pending, name),
        single(pending) ==> single(absorbed(pending, packages, loaded)),
{
    let found = new_dependencies(packages, packages.len() as int, loaded);
    let s = by_name(found);
    lemma_all_added(pending, s, s.len() as int, name);
    assert forall|k: int| 0 <= k < s.len() && (#[trigger] s[k]).0 == name implies exists|
        i: int,
        j: int,
    |
        0 <= i < packages.len() && 0 <= j < links(packages[i].require).len() && !platform(
            (#[trigger] links(packages[i].require)[j]).0,
        ) && canonical(links(packages[i].require)[j].0) == name && !loaded.contains(name) by {
        lemma_sorted_holds(found, s[k]);
        assert(s.contains(s[k]));
        lemma_new_dependencies(packages, packages.len() as int, loaded, s[k]);
        let (i, j) = choose|i: int, j: int|
            0 <= i < packages.len() && 0 <= j < links(packages[i].require).len() && !platform(
                (#[trigger] links(packages[i].require)[j]).0,
            ) && canonical(links(packages[i].require)[j].0) == s[k].0
                && links(packages[i].require)[j].1 == s[k].1 && !loaded.contains(s[k].0);
        assert(canonical(links(packages[i].require)[j].0) == name);
    }
}

proof fn lemma_unloaded_holds(s: Pairs, loaded: Set<Seq<char>>, n: int, e: (Seq<char>, Seq<char>))
    requires
        0 <= n <= s.len(),
    ensures
        unloaded(s, n, loaded).contains(e) <==> exists|k: int| 0 <= k < n && (#[trigger] s[k]) == e && !loaded.contains(s[k].0),
    decreases n,
{
    if n > 0 {
        lemma_unloaded_holds(s, loaded, n - 1, e);
        let t = unloaded(s, n - 1, loaded);
        let r = unloaded(s, n, loaded);
        if r.contains(e) {
            let i = choose|i: int| 0 <= i < r.len() && r[i] == e;
            if i < t.len() {
                assert(t[i] == e);
                let k = choose|k: int| 0 <= k < n - 1 && (#[trigger] s[k]) == e && !loaded.contains(s[k].0);
                assert(s[k] == e);
            } else {
                assert(s[n - 1] == e);
            }
        }
        if exists|k: int| 0 <= k < n && (#[trigger] s[k]) == e && !loaded.contains(s[k].0) {
            let k = choose|k: int| 0 <= k < n && (#[trigger] s[k]) == e && !loaded.contains(s[k].0);
            if k == n - 1 {
                assert(r[t.len() as int] == e);
            } else {
                assert(s[k] == e);
                let i = choose|i: int| 0 <= i < t.len() && t[i] == e;
                assert(r[i] == e);
            }
        }
    }
}

proof fn lemma_solvable(s: Pairs, n: int, e: (Seq<char>, Seq<char>))
    requires
        0 <= n <= s.len(),
    ensures
        solvable(s, n).contains(e) <==> exists|k: int| 0 <= k < n && (#[trigger] s[k]) == e && !platform(s[k].0),
    decreases n,
{
    if n > 0 {
        lemma_solvable(s, n - 1, e);
        let t = solvable(s, n - 1);
        let r = solvable(s, n);
        if r.contains(e) {
            let i = choose|i: int| 0 <= i < r.len() && r[i] == e;
            if i < t.len() {
                assert(t[i] == e);
                let k = choose|k: int| 0 <= k < n - 1 && (#[trigger] s[k]) == e && !platform(s[k].0);
                assert(s[k] == e);
            } else {
                assert(s[n - 1] == e);
            }
        }
        if exists|k: int| 0 <= k < n && (#[trigger] s[k]) == e && !platform(s[k].0) {
            let k = choose|k: int| 0 <= k < n && (#[trigger] s[k]) == e && !platform(s[k].0);
            if k == n - 1 {
                assert(r[t.len() as int] == e);
            } else {
                assert(s[k] == e);
                let i = choose|i: int| 0 <= i < t.len() && t[i] == e;
                assert(r[i] == e);
            }
        }
    }
}

proof fn lemma_flags(s: Pairs, n: int, e: (Seq<char>, Stability))
    requires
        0 <= n <= s.len(),
    ensures
        flags(s, n).contains(e) <==> exists|k: int| 0 <= k < n && ((#[trigger] s[k]).0, e.1) == e && stability_flag(s[k].1) == Some(e.1),
    decreases n,
{
    if n > 0 {
        lemma_flags(s, n - 1, e);
        let t = flags(s, n - 1);
        let r = flags(s, n);
        if r.contains(e) {
            let i = choose|i: int| 0 <= i < r.len() && r[i] == e;
            if i < t.len() {
                assert(t[i] == e);
                let k = choose|k: int| 0 <= k < n - 1 && ((#[trigger] s[k]).0, e.1) == e && stability_flag(s[k].1) == Some(e.1);
                assert((s[k].0, e.1) == e);
            } else {
                assert((s[n - 1].0, e.1) == e);
            }
        }
        if exists|k: int| 0 <= k < n && ((#[trigger] s[k]).0, e.1) == e && stability_flag(s[k].1) == Some(e.1) {
            let k = choose|k: int| 0 <= k < n && ((#[trigger] s[k]).0, e.1) == e && stability_flag(s[k].1) == Some(e.1);
            if k == n - 1 {
                assert(r[t.len() as int] == e);
            } else {
                assert((s[k].0, e.1) == e);
                let i = choose|i: int| 0 <= i < t.len() && t[i] == e;
                assert(r[i] == e);
            }
        }
    }
}


/// All that is pending and was not loaded is asked for next, with its constraint, and nothing
/// else is; the names come in their order.
pub proof fn law_batch_is_all_that_is_missing(
    pending: Pairs,
    loaded: Set<Seq<char>>,
    e: (Seq<char>, Seq<char>),
)
    ensures
        batch(pending, loaded).contains(e) <==> pending.contains(e) && !loaded.contains(e.0),
        ordered(batch(pending, loaded)),
{
    let s = by_name(pending);
    lemma_sorted_holds(pending, e);
    lemma_unloaded_holds(s, loaded, s.len() as int, e);
    law_sorting_orders_and_keeps(pending);
    lemma_unloaded_ordered(s, s.len() as int, loaded);
    if s.contains(e) && !loaded.contains(e.0) {
        let k = choose|k: int| 0 <= k < s.len() && s[k] == e;
        assert(s[k] == e);
    }
}

proof fn lemma_unloaded_ordered(s: Pairs, n: int, loaded: Set<Seq<char>>)
    requires
        0 <= n <= s.len(),
        ordered(s),
    ensures
        ordered(unloaded(s, n, loaded)),
    decreases n,
{
    if n > 0 {
        lemma_unloaded_ordered(s, n - 1, loaded);
        let t = unloaded(s, n - 1, loaded);
        let r = unloaded(s, n, loaded);
        assert forall|i: int, j: int| 0 <= i < j < r.len() implies !precedes(
            #[trigger] r[j].0,
            #[trigger] r[i].0,
        ) by {
            if j == t.len() {
                assert(t.contains(t[i]));
                lemma_unloaded_holds(s, loaded, n - 1, t[i]);
                let k = choose|k: int|
                    0 <= k < n - 1 && (#[trigger] s[k]) == t[i] && !loaded.contains(s[k].0);
                assert(!precedes(s[n - 1].0, s[k].0));
            } else {
                assert(!precedes(t[j].0, t[i].0));
            }
        }
    }
}

/// The solver is asked for every requirement that is not one on the platform, with its
/// constraint, and for nothing else.
pub proof fn law_solver_is_asked_for_every_requirement(require: Pairs, e: (Seq<char>, Seq<char>))
    ensures
        solvable(by_name(require), require.len() as int).contains(e) <==> require.contains(e)
            && !platform(e.0),
{
    let s = by_name(require);
    lemma_sorted_holds(require, e);
    lemma_solvable(s, s.len() as int, e);
    if s.contains(e) && !platform(e.0) {
        let k = choose|k: int| 0 <= k < s.len() && s[k] == e;
        assert(s[k] == e);
    }
}

/// A requirement has a flag where its constraint ends in an `@` and the word of a stability that
/// is not the stable one; nothing else has one.
pub proof fn law_stability_flags_are_found(
    require: Pairs,
    name: Seq<char>,
    before: Seq<char>,
    word: Seq<char>,
    flag: Stability,
)
    requires
        !word.contains('@'),
        stability_of(word) == Some(flag),
    ensures
        require.contains((name, before + seq!['@'] + word)) && flag != Stability::Stable ==> flags(
            by_name(require),
            require.len() as int,
        ).contains((name, flag)),
        stability_flag(before + seq!['@'] + word) == if flag == Stability::Stable {
            None
        } else {
            Some(flag)
        },
        stability_flag(word) is None,
{
    let c = before + seq!['@'] + word;
    lemma_behind_at(before + seq!['@'], word);
    lemma_behind_at(Seq::empty(), word);
    assert(Seq::<char>::empty() + word =~= word);
    assert((before + seq!['@']).last() == '@');
    assert(behind_at(c) == before.len() + 1);
    assert(after(c, before.len() as int + 1) =~= word);
    let s = by_name(require);
    lemma_sorted_holds(require, (name, c));
    lemma_flags(s, s.len() as int, (name, flag));
    if require.contains((name, c)) && flag != Stability::Stable {
        let k = choose|k: int| 0 <= k < s.len() && s[k] == (name, c);
        assert((s[k].0, flag) == (name, flag));
    }
}

proof fn lemma_behind_at(s: Seq<char>, word: Seq<char>)
    requires
        !word.contains('@'),
    ensures
        behind_at(s + word) == behind_at(s),
    decreases word.len(),
{
    if word.len() > 0 {
        assert((s + word).last() == word.last());
        assert(word.contains(word.last()));
        assert((s + word).drop_last() =~= s + word.drop_last());
        assert forall|x: char| word.drop_last().contains(x) implies word.contains(x) by {
            let k = choose|k: int| 0 <= k < word.drop_last().len() && word.drop_last()[k] == x;
            assert(word[k] == x);
        }
        lemma_behind_at(s, word.drop_last());
    } else {
        assert(s + word =~= s);
    }
}

/// Every stability has its word, whatever the case of the letters, and no other word stands for
/// one.
pub proof fn law_stabilities_have_their_words(word: Seq<char>)
    ensures
        stability_of(word) == Some(Stability::Stable) <==> ascii_lower(word) == "stable"@,
        stability_of(word) == Some(Stability::Rc) <==> ascii_lower(word) == "rc"@,
        stability_of(word) == Some(Stability::Beta) <==> ascii_lower(word) == "beta"@,
        stability_of(word) == Some(Stability::Alpha) <==> ascii_lower(word) == "alpha"@,
        stability_of(word) == Some(Stability::Dev) <==> ascii_lower(word) == "dev"@,
{
    reveal_strlit("stable");
    reveal_strlit("rc");
    reveal_strlit("beta");
    reveal_strlit("alpha");
    reveal_strlit("dev");
    assert("stable"@.len() == 6 && "rc"@.len() == 2 && "beta"@.len() == 4 && "alpha"@.len() == 5
        && "dev"@.len() == 3);
}

// ---------------------------------------------------------------------------
// The root requirements
// ---------------------------------------------------------------------------
proof fn lemma_required(s: Pairs, n: int, replaced: Set<Seq<char>>, name: Seq<char>)
    requires
        0 <= n <= s.len(),
    ensures
        has_link(required_pending(s, n, replaced), name) <==> exists|k: int|
            0 <= k < n && canonical((#[trigger] s[k]).0) == name && !platform(s[k].0)
                && !replaced.contains(name),
        has_link(required_pending(s, n, replaced), name) ==> exists|k: int|
            0 <= k < n && canonical((#[trigger] s[k]).0) == name && !platform(s[k].0)
                && constraint_on(required_pending(s, n, replaced), name) == s[k].1,
        single(required_pending(s, n, replaced)),
    decreases n,
{
    if n > 0 {
        lemma_required(s, n - 1, replaced, name);
        let t = required_pending(s, n - 1, replaced);
        let r = required_pending(s, n, replaced);
        lemma_with_link(t, canonical(s[n - 1].0), s[n - 1].1, name);
        if has_link(r, name) {
            if !platform(s[n - 1].0) && !replaced.contains(canonical(s[n - 1].0)) && canonical(
                s[n - 1].0,
            ) == name {
                assert(canonical(s[n - 1].0) == name);
            } else {
                let k = choose|k: int|
                    0 <= k < n - 1 && canonical((#[trigger] s[k]).0) == name && !platform(s[k].0)
                        && constraint_on(t, name) == s[k].1;
                assert(canonical(s[k].0) == name);
            }
        }
    }
}

proof fn lemma_added_pending(
    start: Pairs,
    s: Pairs,
    n: int,
    replaced: Set<Seq<char>>,
    name: Seq<char>,
)
    requires
        0 <= n <= s.len(),
    ensures
        has_link(start, name) ==> has_link(added_pending(start, s, n, replaced), name)
            && is_alternative(
            constraint_on(start, name),
            constraint_on(added_pending(start, s, n, replaced), name),
        ),
        has_link(added_pending(start, s, n, replaced), name) ==> has_link(start, name) || exists|
            k: int,
        |
            0 <= k < n && canonical((#[trigger] s[k]).0) == name && !platform(s[k].0)
                && !replaced.contains(name),
        forall|k: int|
            0 <= k < n && canonical((#[trigger] s[k]).0) == name && !platform(s[k].0)
                && !replaced.contains(name) ==> has_link(added_pending(start, s, n, replaced), name)
                && is_alternative(
                s[k].1,
                constraint_on(added_pending(start, s, n, replaced), name),
            ),
        single(start) ==> single(added_pending(start, s, n, replaced)),
    decreases n,
{
    if n > 0 {
        lemma_added_pending(start, s, n - 1, replaced, name);
        let t = added_pending(start, s, n - 1, replaced);
        let r = added_pending(start, s, n, replaced);
        lemma_with_constraint(t, canonical(s[n - 1].0), s[n - 1].1, name);
        assert forall|k: int|
            0 <= k < n && canonical((#[trigger] s[k]).0) == name && !platform(s[k].0)
                && !replaced.contains(name) implies has_link(r, name) && is_alternative(
            s[k].1,
            constraint_on(r, name),
        ) by {}
        if has_link(r, name) && !has_link(t, name) {
            assert(canonical(s[n - 1].0) == name);
        }
    } else {
        lemma_alone(constraint_on(start, name));
    }
}

/// Whatever the project requires, for production or for development, is asked of the repositories
/// with its constraint, unless it is a platform package or the project stands in for it. Where
/// two requirements for production have names that differ in case only, one of them counts.
pub proof fn law_root_requirements_are_asked_for(
    require: Pairs,
    require_dev: Pairs,
    replaced: Set<Seq<char>>,
    e: (Seq<char>, Seq<char>),
)
    requires
        !platform(e.0),
        !replaced.contains(canonical(e.0)),
    ensures
        require.contains(e) || require_dev.contains(e) ==> has_link(
            root_pending(require, require_dev, replaced),
            canonical(e.0),
        ),
        require_dev.contains(e) ==> is_alternative(
            e.1,
            constraint_on(root_pending(require, require_dev, replaced), canonical(e.0)),
        ),
        require.contains(e) && (forall|k: int|
            0 <= k < require.len() && canonical((#[trigger] require[k]).0) == canonical(e.0)
                ==> require[k] == e) ==> is_alternative(
            e.1,
            constraint_on(root_pending(require, require_dev, replaced), canonical(e.0)),
        ),
{
    let name = canonical(e.0);
    let r = by_name(require);
    let d = by_name(require_dev);
    let start = required_pending(r, r.len() as int, replaced);
    lemma_sorted_holds(require, e);
    lemma_sorted_holds(require_dev, e);
    lemma_required(r, r.len() as int, replaced, name);
    lemma_added_pending(start, d, d.len() as int, replaced, name);
    if require_dev.contains(e) {
        let k = choose|k: int| 0 <= k < d.len() && d[k] == e;
        assert(canonical(d[k].0) == name);
    }
    if require.contains(e) {
        let k = choose|k: int| 0 <= k < r.len() && r[k] == e;
        assert(canonical(r[k].0) == name);
        if forall|k: int|
            0 <= k < require.len() && canonical((#[trigger] require[k]).0) == name ==> require[k]
                == e {
            let k = choose|k: int|
                0 <= k < r.len() && canonical((#[trigger] r[k]).0) == name && !platform(r[k].0)
                    && constraint_on(start, name) == r[k].1;
            lemma_sorted_holds(require, r[k]);
            assert(r.contains(r[k]));
            let m = choose|m: int| 0 <= m < require.len() && require[m] == r[k];
            assert(canonical(require[m].0) == name);
        }
    }
}

/// The repositories are asked for nothing that the project does not require.
pub proof fn law_only_root_requirements_are_asked_for(
    require: Pairs,
    require_dev: Pairs,
    replaced: Set<Seq<char>>,
    name: Seq<char>,
)
    requires
        has_link(root_pending(require, require_dev, replaced), name),
    ensures
        !replaced.contains(name),
        (exists|k: int|
            0 <= k < require.len() && canonical((#[trigger] require[k]).0) == name && !platform(
                require[k].0,
            )) || (exists|k: int|
            0 <= k < require_dev.len() && canonical((#[trigger] require_dev[k]).0) == name
                && !platform(require_dev[k].0)),
        single(root_pending(require, require_dev, replaced)),
{
    let r = by_name(require);
    let d = by_name(require_dev);
    let start = required_pending(r, r.len() as int, replaced);
    lemma_required(r, r.len() as int, replaced, name);
    lemma_added_pending(start, d, d.len() as int, replaced, name);
    if has_link(start, name) {
        let k = choose|k: int|
            0 <= k < r.len() && canonical((#[trigger] r[k]).0) == name && !platform(r[k].0)
                && !replaced.contains(name);
        lemma_sorted_holds(require, r[k]);
        assert(r.contains(r[k]));
        let m = choose|m: int| 0 <= m < require.len() && require[m] == r[k];
        assert(canonical(require[m].0) == name);
    } else {
        let k = choose|k: int|
            0 <= k < d.len() && canonical((#[trigger] d[k]).0) == name && !platform(d[k].0)
                && !replaced.contains(name);
        lemma_sorted_holds(require_dev, d[k]);
        assert(d.contains(d[k]));
        let m = choose|m: int| 0 <= m < require_dev.len() && require_dev[m] == d[k];
        assert(canonical(require_dev[m].0) == name);
    }
}

} // verus!
