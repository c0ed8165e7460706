//! The order in which packages are loaded: what others depend on comes first.
use vstd::prelude::*;
use vstd::string::*;

use crate::autoload::types::PackageAutoload;
use crate::text::{
    lemma_precedes_total, lemma_precedes_transitive, less, precedes, str_equal, views,
};

verus! {

/// A package requires a name.
pub open spec fn asks_for(p: PackageAutoload, name: Seq<char>) -> bool {
    views(p.requires@).contains(name)
}

/// How many packages stand in the longest chain of dependents of a name, each of which
/// requires the one behind it, where chains of up to `limit` packages count.
pub open spec fn depth(all: Seq<PackageAutoload>, name: Seq<char>, limit: nat) -> nat
    decreases limit, 0int,
{
    if limit == 0 {
        0
    } else {
        deepest(all, all.len() as int, name, (limit - 1) as nat)
    }
}

/// One more than the greatest depth of a dependent among the first `n` packages, and nothing
/// where there is none.
pub open spec fn deepest(all: Seq<PackageAutoload>, n: int, name: Seq<char>, limit: nat) -> nat
    decreases limit, n,
{
    if n <= 0 || n > all.len() {
        0
    } else {
        let before = deepest(all, n - 1, name, limit);
        if asks_for(all[n - 1], name) && depth(all, all[n - 1].name@, limit) + 1 > before {
            depth(all, all[n - 1].name@, limit) + 1
        } else {
            before
        }
    }
}

/// The weight of a name: nothing without dependents, else one more than the greatest weight of
/// a dependent. Where packages require one another in a circle the chains are as long as there
/// are packages.
pub open spec fn weight(packages: Seq<PackageAutoload>, name: Seq<char>) -> nat {
    depth(packages, name, packages.len())
}

/// Packages by their places, each of which requires the next.
pub open spec fn is_chain(all: Seq<PackageAutoload>, c: Seq<int>) -> bool {
    &&& forall|k: int| 0 <= k < c.len() ==> 0 <= #[trigger] c[k] < all.len()
    &&& forall|k: int| 0 <= k < c.len() - 1 ==> asks_for(all[#[trigger] c[k]], all[c[k + 1]].name@)
}

/// Some packages require one another in a circle.
pub open spec fn has_cycle(all: Seq<PackageAutoload>) -> bool {
    exists|c: Seq<int>| #[trigger] is_chain(all, c) && c.len() >= 2 && c.first() == c.last()
}

/// What a package requires stands in front of it.
pub open spec fn dependencies_first(s: Seq<PackageAutoload>) -> bool {
    forall|i: int, j: int|
        0 <= i < s.len() && 0 <= j < s.len() && asks_for(
            #[trigger] s[i],
            (#[trigger] s[j]).name@,
        ) ==> j < i
}

/// `a` is loaded before `b`: it has more weight, or as much and its name comes first.
pub open spec fn loads_before(
    all: Seq<PackageAutoload>,
    a: PackageAutoload,
    b: PackageAutoload,
) -> bool {
    let x = weight(all, a.name@);
    let y = weight(all, b.name@);
    x > y || (x == y && precedes(a.name@, b.name@))
}

/// The package put behind the last one that it is not loaded before.
pub open spec fn placed(
    all: Seq<PackageAutoload>,
    s: Seq<PackageAutoload>,
    x: PackageAutoload,
) -> Seq<PackageAutoload>
    decreases s.len(),
{
    if s.len() > 0 && loads_before(all, x, s.last()) {
        placed(all, s.drop_last(), x).push(s.last())
    } else {
        s.push(x)
    }
}

/// The packages in the order in which they are loaded.
pub open spec fn load_order_of(all: Seq<PackageAutoload>, s: Seq<PackageAutoload>) -> Seq<
    PackageAutoload,
>
    decreases s.len(),
{
    if s.len() == 0 {
        s
    } else {
        placed(all, load_order_of(all, s.drop_last()), s.last())
    }
}

/// The packages in the order in which they are loaded.
pub open spec fn load_order(packages: Seq<PackageAutoload>) -> Seq<PackageAutoload> {
    load_order_of(packages, packages)
}

/// What the references of a list stand for.
pub open spec fn targets(v: Seq<&PackageAutoload>) -> Seq<PackageAutoload> {
    v.map_values(|p: &PackageAutoload| *p)
}

proof fn lemma_loads_before_order(
    all: Seq<PackageAutoload>,
    a: PackageAutoload,
    b: PackageAutoload,
    c: PackageAutoload,
)
    ensures
        loads_before(all, a, b) ==> !loads_before(all, b, a),
        loads_before(all, a, b) && !loads_before(all, c, b) ==> loads_before(all, a, c),
{
    lemma_precedes_total(a.name@, b.name@);
    lemma_precedes_total(b.name@, c.name@);
    lemma_precedes_total(a.name@, c.name@);
    if precedes(a.name@, b.name@) && precedes(b.name@, c.name@) {
        lemma_precedes_transitive(a.name@, b.name@, c.name@);
    }
}

/// No package is loaded before one in front of it.
pub open spec fn in_load_order(all: Seq<PackageAutoload>, s: Seq<PackageAutoload>) -> bool {
    forall|i: int, j: int|
        0 <= i < j < s.len() ==> !loads_before(all, #[trigger] s[j], #[trigger] s[i])
}

proof fn lemma_placed(all: Seq<PackageAutoload>, s: Seq<PackageAutoload>, x: PackageAutoload)
    requires
        in_load_order(all, s),
    ensures
        in_load_order(all, placed(all, s, x)),
        placed(all, s, x).to_multiset() =~= s.to_multiset().insert(x),
        forall|i: int|
            0 <= i < placed(all, s, x).len() ==> (#[trigger] placed(all, s, x)[i]) == x
                || s.contains(placed(all, s, x)[i]),
    decreases s.len(),
{
    broadcast use vstd::seq_lib::group_to_multiset_ensures;

    if s.len() > 0 && loads_before(all, x, s.last()) {
        let head = s.drop_last();
        let last = s.last();
        lemma_placed(all, head, x);
        let t = placed(all, head, x);
        assert(s =~= head.push(last));
        assert forall|i: int| 0 <= i < t.len() implies !loads_before(
            all,
            last,
            #[trigger] t[i],
        ) by {
            if t[i] == x {
                lemma_loads_before_order(all, x, last, last);
            } else {
                let k = choose|k: int| 0 <= k < head.len() && head[k] == t[i];
                assert(s[k] == t[i]);
                assert(!loads_before(all, s[s.len() - 1], s[k]));
            }
        }
        assert forall|i: int| 0 <= i < placed(all, s, x).len() implies (#[trigger] placed(
            all,
            s,
            x,
        )[i]) == x || s.contains(placed(all, s, x)[i]) by {
            if i < t.len() {
                if t[i] != x {
                    let k = choose|k: int| 0 <= k < head.len() && head[k] == t[i];
                    assert(s[k] == t[i]);
                }
            } else {
                assert(s[s.len() - 1] == last);
            }
        }
    } else {
        let t = s.push(x);
        assert forall|i: int, j: int| 0 <= i < j < t.len() implies !loads_before(
            all,
            #[trigger] t[j],
            #[trigger] t[i],
        ) by {
            if j == s.len() && i < s.len() - 1 {
                assert(!loads_before(all, s[s.len() - 1], s[i]));
                lemma_loads_before_order(all, x, s[i], s.last());
            }
        }
        assert forall|i: int| 0 <= i < t.len() implies (#[trigger] t[i]) == x || s.contains(
            t[i],
        ) by {
            if i < s.len() {
                assert(s[i] == t[i]);
            }
        }
    }
}

/// The order of loading keeps every package, and puts none before one of more weight, or of as
/// much and whose name comes first.
pub proof fn law_load_order(packages: Seq<PackageAutoload>)
    ensures
        in_load_order(packages, load_order(packages)),
        load_order(packages).to_multiset() =~= packages.to_multiset(),
{
    lemma_load_order_of(packages, packages);
}

/// Unless packages require one another in a circle, each is loaded behind all that it requires.
pub proof fn law_dependencies_load_first(packages: Seq<PackageAutoload>)
    requires
        !has_cycle(packages),
    ensures
        dependencies_first(load_order(packages)),
{
    broadcast use vstd::seq_lib::group_to_multiset_ensures;

    law_load_order(packages);
    let s = load_order(packages);
    assert forall|i: int, j: int|
        0 <= i < s.len() && 0 <= j < s.len() && asks_for(
            #[trigger] s[i],
            (#[trigger] s[j]).name@,
        ) implies j < i by {
        let (p, q) = (s[i], s[j]);
        assert(s.contains(p) && s.contains(q));
        assert(s.to_multiset().count(p) > 0 && s.to_multiset().count(q) > 0);
        assert(packages.to_multiset().count(p) > 0 && packages.to_multiset().count(q) > 0);
        assert(packages.contains(p) && packages.contains(q));
        let a = choose|a: int| 0 <= a < packages.len() && packages[a] == p;
        let b = choose|b: int| 0 <= b < packages.len() && packages[b] == q;
        lemma_dependency_weighs_more(packages, a, b);
        assert(loads_before(packages, q, p));
        if i <= j {
            lemma_loads_before_order(packages, q, p, p);
            assert(i != j);
            assert(!loads_before(packages, s[j], s[i]));
        }
    }
}

/// Packages that can be numbered so that each has a smaller number than what it requires do not
/// require one another in a circle.
pub proof fn law_numbered_packages_have_no_cycle(packages: Seq<PackageAutoload>, number: Seq<int>)
    requires
        number.len() == packages.len(),
        forall|i: int, j: int|
            0 <= i < packages.len() && 0 <= j < packages.len() && asks_for(
                #[trigger] packages[i],
                (#[trigger] packages[j]).name@,
            ) ==> number[i] < number[j],
    ensures
        !has_cycle(packages),
{
    if has_cycle(packages) {
        let c = choose|c: Seq<int>| #[trigger]
            is_chain(packages, c) && c.len() >= 2 && c.first() == c.last();
        lemma_numbers_rise(packages, number, c, c.len() - 1);
    }
}

proof fn lemma_numbers_rise(all: Seq<PackageAutoload>, number: Seq<int>, c: Seq<int>, k: int)
    requires
        is_chain(all, c),
        0 < k < c.len(),
        number.len() == all.len(),
        forall|i: int, j: int|
            0 <= i < all.len() && 0 <= j < all.len() && asks_for(
                #[trigger] all[i],
                (#[trigger] all[j]).name@,
            ) ==> number[i] < number[j],
    ensures
        number[c[0]] < number[c[k]],
    decreases k,
{
    if k > 1 {
        lemma_numbers_rise(all, number, c, k - 1);
    }
    let (a, b) = (c[k - 1], c[k]);
    assert(asks_for(all[a], all[b].name@));
}

/// What is required among the first `n` packages bounds `deepest` from below.
proof fn lemma_deepest(all: Seq<PackageAutoload>, n: int, name: Seq<char>, limit: nat)
    requires
        0 <= n <= all.len(),
    ensures
        forall|k: int|
            0 <= k < n && asks_for(#[trigger] all[k], name) ==> deepest(all, n, name, limit)
                >= depth(all, all[k].name@, limit) + 1,
        deepest(all, n, name, limit) > 0 ==> exists|k: int|
            0 <= k < n && asks_for(#[trigger] all[k], name) && deepest(all, n, name, limit)
                == depth(all, all[k].name@, limit) + 1,
    decreases n,
{
    if n > 0 {
        lemma_deepest(all, n - 1, name, limit);
        let here = deepest(all, n, name, limit);
        if here > 0 {
            if asks_for(all[n - 1], name) && here == depth(all, all[n - 1].name@, limit) + 1 {
            } else {
                let k = choose|k: int|
                    0 <= k < n - 1 && asks_for(#[trigger] all[k], name) && deepest(
                        all,
                        n - 1,
                        name,
                        limit,
                    ) == depth(all, all[k].name@, limit) + 1;
                assert(asks_for(all[k], name));
            }
        }
    }
}

/// No chain is longer than those that count.
proof fn lemma_depth_within(all: Seq<PackageAutoload>, name: Seq<char>, limit: nat)
    ensures
        depth(all, name, limit) <= limit,
    decreases limit,
{
    if limit > 0 {
        let below = (limit - 1) as nat;
        lemma_deepest(all, all.len() as int, name, below);
        if depth(all, name, limit) > 0 {
            let k = choose|k: int|
                0 <= k < all.len() && asks_for(#[trigger] all[k], name) && deepest(
                    all,
                    all.len() as int,
                    name,
                    below,
                ) == depth(all, all[k].name@, below) + 1;
            lemma_depth_within(all, all[k].name@, below);
        }
    }
}

/// Names on whose dependents two limits agree have the same depth.
proof fn lemma_same_deepest(all: Seq<PackageAutoload>, n: int, name: Seq<char>, a: nat, b: nat)
    requires
        0 <= n <= all.len(),
        forall|k: int|
            0 <= k < n && asks_for(#[trigger] all[k], name) ==> depth(all, all[k].name@, a)
                == depth(all, all[k].name@, b),
    ensures
        deepest(all, n, name, a) == deepest(all, n, name, b),
    decreases n,
{
    if n > 0 {
        lemma_same_deepest(all, n - 1, name, a, b);
        assert(all[n - 1] == all[n - 1]);
    }
}

/// Where the chains do not reach the limit, a greater limit changes nothing.
proof fn lemma_depth_settles(all: Seq<PackageAutoload>, name: Seq<char>, limit: nat)
    requires
        depth(all, name, limit) < limit,
    ensures
        depth(all, name, limit + 1) == depth(all, name, limit),
    decreases limit,
{
    let below = (limit - 1) as nat;
    lemma_deepest(all, all.len() as int, name, below);
    assert forall|k: int| 0 <= k < all.len() && asks_for(#[trigger] all[k], name) implies depth(
        all,
        all[k].name@,
        below,
    ) == depth(all, all[k].name@, limit) by {
        lemma_depth_settles(all, all[k].name@, below);
    }
    lemma_same_deepest(all, all.len() as int, name, below, limit);
}

/// A name whose chains reach the limit is at the end of a chain of that many dependents.
proof fn lemma_chain_of(all: Seq<PackageAutoload>, i: int, limit: nat) -> (c: Seq<int>)
    requires
        0 <= i < all.len(),
        depth(all, all[i].name@, limit) == limit,
    ensures
        is_chain(all, c),
        c.len() == limit + 1,
        c.last() == i,
    decreases limit,
{
    if limit == 0 {
        seq![i]
    } else {
        let below = (limit - 1) as nat;
        let name = all[i].name@;
        lemma_deepest(all, all.len() as int, name, below);
        let k = choose|k: int|
            0 <= k < all.len() && asks_for(#[trigger] all[k], name) && deepest(
                all,
                all.len() as int,
                name,
                below,
            ) == depth(all, all[k].name@, below) + 1;
        let head = lemma_chain_of(all, k, below);
        let c = head.push(i);
        assert forall|m: int| 0 <= m < c.len() implies 0 <= #[trigger] c[m] < all.len() by {
            if m < head.len() {
                assert(c[m] == head[m]);
            }
        }
        assert forall|m: int| 0 <= m < c.len() - 1 implies asks_for(
            all[#[trigger] c[m]],
            all[c[m + 1]].name@,
        ) by {
            assert(c[m] == head[m]);
            if m + 1 < head.len() {
                assert(c[m + 1] == head[m + 1]);
            }
        }
        c
    }
}

/// A chain of more places than there are packages comes back to one of them.
proof fn lemma_long_chain_is_cyclic(all: Seq<PackageAutoload>, c: Seq<int>)
    requires
        is_chain(all, c),
        c.len() > all.len(),
    ensures
        has_cycle(all),
{
    if c.no_duplicates() {
        let places = vstd::set_lib::set_int_range(0, all.len() as int);
        vstd::set_lib::lemma_int_range(0, all.len() as int);
        c.unique_seq_to_set();
        assert forall|x: int| c.to_set().contains(x) implies places.contains(x) by {
            let k = choose|k: int| 0 <= k < c.len() && c[k] == x;
            assert(0 <= c[k] < all.len());
        }
        vstd::set_lib::lemma_len_subset(c.to_set(), places);
        assert(false);
    }
    let (a, b) = choose|a: int, b: int|
        0 <= a < c.len() && 0 <= b < c.len() && a != b && #[trigger] c[a] == #[trigger] c[b];
    let (a, b) = if a < b {
        (a, b)
    } else {
        (b, a)
    };
    let d = c.subrange(a, b + 1);
    assert forall|k: int| 0 <= k < d.len() implies 0 <= #[trigger] d[k] < all.len() by {
        assert(d[k] == c[a + k]);
    }
    assert forall|k: int| 0 <= k < d.len() - 1 implies asks_for(
        all[#[trigger] d[k]],
        all[d[k + 1]].name@,
    ) by {
        assert(d[k] == c[a + k]);
        assert(d[k + 1] == c[a + k + 1]);
    }
    assert(is_chain(all, d) && d.len() >= 2 && d.first() == d.last());
}

/// Without circles, what a package requires weighs more than the package.
proof fn lemma_dependency_weighs_more(all: Seq<PackageAutoload>, a: int, b: int)
    requires
        !has_cycle(all),
        0 <= a < all.len(),
        0 <= b < all.len(),
        asks_for(all[a], all[b].name@),
    ensures
        weight(all, all[b].name@) > weight(all, all[a].name@),
{
    let name = all[b].name@;
    let n = all.len();
    lemma_depth_within(all, name, n);
    if depth(all, name, n) == n {
        let c = lemma_chain_of(all, b, n);
        lemma_long_chain_is_cyclic(all, c);
    }
    lemma_depth_settles(all, name, n);
    lemma_deepest(all, n as int, name, n);
}

/// Once one more step changes no depth, none does.
proof fn lemma_depth_stays(all: Seq<PackageAutoload>, limit: nat, more: nat)
    requires
        limit <= more,
        forall|k: int|
            0 <= k < all.len() ==> depth(all, (#[trigger] all[k]).name@, limit + 1) == depth(
                all,
                all[k].name@,
                limit,
            ),
    ensures
        forall|k: int|
            0 <= k < all.len() ==> depth(all, (#[trigger] all[k]).name@, more) == depth(
                all,
                all[k].name@,
                limit,
            ),
    decreases more,
{
    if more > limit {
        let below = (more - 1) as nat;
        lemma_depth_stays(all, limit, below);
        assert forall|k: int| 0 <= k < all.len() implies depth(
            all,
            (#[trigger] all[k]).name@,
            more,
        ) == depth(all, all[k].name@, limit) by {
            lemma_same_deepest(all, all.len() as int, all[k].name@, below, limit);
            assert(depth(all, all[k].name@, limit + 1) == depth(all, all[k].name@, limit));
        }
    }
}

proof fn lemma_load_order_of(all: Seq<PackageAutoload>, s: Seq<PackageAutoload>)
    ensures
        in_load_order(all, load_order_of(all, s)),
        load_order_of(all, s).to_multiset() =~= s.to_multiset(),
    decreases s.len(),
{
    broadcast use vstd::seq_lib::group_to_multiset_ensures;

    if s.len() > 0 {
        lemma_load_order_of(all, s.drop_last());
        lemma_placed(all, load_order_of(all, s.drop_last()), s.last());
        assert(s =~= s.drop_last().push(s.last()));
    }
}

fn requires_name(p: &PackageAutoload, name: &str) -> (r: bool)
    ensures
        r == asks_for(*p, name@),
{
    let ghost all = views(p.requires@);
    let mut i: usize = 0;
    while i < p.requires.len()
        invariant
            i <= p.requires.len(),
            all == views(p.requires@),
            forall|k: int| 0 <= k < i ==> #[trigger] all[k] != name@,
        decreases p.requires.len() - i,
    {
        assert(all[i as int] == p.requires@[i as int]@);
        if str_equal(p.requires[i].as_str(), name) {
            return true;
        }
        i += 1;
    }
    false
}

/// The places of the packages that require a name, in order.
spec fn are_dependents(all: Seq<PackageAutoload>, name: Seq<char>, n: int, v: Seq<usize>) -> bool {
    &&& forall|k: int| 0 <= k < v.len() ==> #[trigger] v[k] < n && asks_for(all[v[k] as int], name)
    &&& forall|p: int|
        0 <= p < n && asks_for(#[trigger] all[p], name) ==> exists|k: int|
            0 <= k < v.len() && #[trigger] v[k] == p
}

fn dependents_of(packages: &[PackageAutoload], name: &str) -> (r: Vec<usize>)
    ensures
        are_dependents(packages@, name@, packages.len() as int, r@),
{
    let mut out: Vec<usize> = Vec::new();
    let mut i: usize = 0;
    while i < packages.len()
        invariant
            i <= packages.len(),
            are_dependents(packages@, name@, i as int, out@),
        decreases packages.len() - i,
    {
        let ghost before = out@;
        if requires_name(&packages[i], name) {
            out.push(i);
            assert(out@[before.len() as int] == i);
        }
        proof {
            assert forall|p: int| 0 <= p < i + 1 && asks_for(
                #[trigger] packages@[p],
                name@,
            ) implies exists|k: int| 0 <= k < out@.len() && #[trigger] out@[k] == p by {
                if p < i {
                    let k = choose|k: int| 0 <= k < before.len() && #[trigger] before[k] == p;
                    assert(out@[k] == p);
                }
            }
        }
        i += 1;
    }
    out
}

/// The depth of each package.
spec fn are_depths(all: Seq<PackageAutoload>, w: Seq<usize>, limit: nat) -> bool {
    &&& w.len() == all.len()
    &&& forall|k: int|
        0 <= k < w.len() ==> #[trigger] w[k] == depth(all, all[k].name@, limit)
}

/// One more than the greatest depth of a dependent.
fn deeper(
    packages: &[PackageAutoload],
    dependents: &Vec<usize>,
    w: &Vec<usize>,
    Ghost(name): Ghost<Seq<char>>,
    Ghost(limit): Ghost<nat>,
) -> (r: usize)
    requires
        limit < packages.len(),
        are_dependents(packages@, name, packages.len() as int, dependents@),
        are_depths(packages@, w@, limit),
    ensures
        r == depth(packages@, name, limit + 1),
{
    let ghost all = packages@;
    let mut best: usize = 0;
    let mut i: usize = 0;
    while i < dependents.len()
        invariant
            i <= dependents.len(),
            all == packages@,
            limit < packages.len(),
            are_dependents(all, name, all.len() as int, dependents@),
            are_depths(all, w@, limit),
            forall|k: int| 0 <= k < i ==> best >= w@[(#[trigger] dependents@[k]) as int] + 1,
            best > 0 ==> exists|k: int|
                0 <= k < i && best == w@[(#[trigger] dependents@[k]) as int] + 1,
        decreases dependents.len() - i,
    {
        let at: usize = dependents[i];
        proof {
            assert(dependents@[i as int] == at);
            lemma_depth_within(all, all[at as int].name@, limit);
            assert(w@[at as int] == depth(all, all[at as int].name@, limit));
        }
        if w[at] + 1 > best {
            best = w[at] + 1;
            assert(best == w@[dependents@[i as int] as int] + 1);
        }
        i += 1;
    }
    proof {
        lemma_deepest(all, all.len() as int, name, limit);
        let d = deepest(all, all.len() as int, name, limit);
        if d > 0 {
            let p = choose|p: int|
                0 <= p < all.len() && asks_for(#[trigger] all[p], name) && d == depth(
                    all,
                    all[p].name@,
                    limit,
                ) + 1;
            let k = choose|k: int| 0 <= k < dependents@.len() && #[trigger] dependents@[k] == p;
            assert(w@[dependents@[k] as int] == depth(all, all[p].name@, limit));
            assert(best >= d);
        }
        if best > 0 {
            let k = choose|k: int|
                0 <= k < dependents@.len() && best == w@[(#[trigger] dependents@[k]) as int] + 1;
            let p = dependents@[k] as int;
            assert(asks_for(all[p], name));
            assert(w@[p] == depth(all, all[p].name@, limit));
            assert(d >= best);
        }
    }
    best
}

/// The weight of each package.
fn weights(packages: &[PackageAutoload]) -> (r: Vec<usize>)
    ensures
        are_depths(packages@, r@, packages.len() as nat),
{
    let ghost all = packages@;
    let n: usize = packages.len();
    let mut dependents: Vec<Vec<usize>> = Vec::new();
    let mut w: Vec<usize> = Vec::new();
    let mut i: usize = 0;
    while i < n
        invariant
            i <= n,
            n == packages.len(),
            all == packages@,
            dependents.len() == i,
            w.len() == i,
            forall|k: int|
                0 <= k < i ==> are_dependents(
                    all,
                    all[k].name@,
                    n as int,
                    (#[trigger] dependents@[k])@,
                ),
            forall|k: int| 0 <= k < i ==> #[trigger] w@[k] == 0,
        decreases n - i,
    {
        dependents.push(dependents_of(packages, packages[i].name.as_str()));
        w.push(0);
        i += 1;
    }
    let mut limit: usize = 0;
    while limit < n
        invariant
            limit <= n,
            n == packages.len(),
            all == packages@,
            dependents.len() == n,
            forall|k: int|
                0 <= k < n ==> are_dependents(
                    all,
                    all[k].name@,
                    n as int,
                    (#[trigger] dependents@[k])@,
                ),
            are_depths(all, w@, limit as nat),
        decreases n - limit,
    {
        let mut next: Vec<usize> = Vec::new();
        let mut same = true;
        let mut k: usize = 0;
        while k < n
            invariant
                k <= n,
                limit < n,
                n == packages.len(),
                all == packages@,
                dependents.len() == n,
                forall|k: int|
                    0 <= k < n ==> are_dependents(
                        all,
                        all[k].name@,
                        n as int,
                        (#[trigger] dependents@[k])@,
                    ),
                are_depths(all, w@, limit as nat),
                next.len() == k,
                forall|m: int|
                    0 <= m < k ==> #[trigger] next@[m] == depth(
                        all,
                        all[m].name@,
                        limit as nat + 1,
                    ),
                same ==> forall|m: int| 0 <= m < k ==> #[trigger] next@[m] == w@[m],
            decreases n - k,
        {
            let d: usize = deeper(
                packages,
                &dependents[k],
                &w,
                Ghost(all[k as int].name@),
                Ghost(limit as nat),
            );
            if d != w[k] {
                same = false;
            }
            next.push(d);
            k += 1;
        }
        if same {
            proof {
                assert forall|m: int| 0 <= m < all.len() implies depth(
                    all,
                    (#[trigger] all[m]).name@,
                    limit as nat + 1,
                ) == depth(all, all[m].name@, limit as nat) by {
                    assert(next@[m] == w@[m]);
                }
                lemma_depth_stays(all, limit as nat, n as nat);
                assert forall|m: int| 0 <= m < w@.len() implies #[trigger] w@[m] == depth(
                    all,
                    all[m].name@,
                    n as nat,
                ) by {
                    assert(all[m] == all[m]);
                }
            }
            return w;
        }
        w = next;
        limit += 1;
    }
    w
}

/// The packages in the order in which they are loaded: by weight, so that each comes behind all
/// that it requires, and among equals by name.
pub fn sort_packages_by_dependency(packages: &[PackageAutoload]) -> (r: Vec<&PackageAutoload>)
    ensures
        targets(r@) == load_order(packages@),
        targets(r@).to_multiset() == packages@.to_multiset(),
        !has_cycle(packages@) ==> forall|i: int, j: int|
            0 <= i < r@.len() && 0 <= j < r@.len() && views((#[trigger] r@[i]).requires@).contains(
                (#[trigger] r@[j]).name@,
            ) ==> j < i,
{
    let w = weights(packages);
    let mut out: Vec<&PackageAutoload> = Vec::new();
    let mut out_weights: Vec<usize> = Vec::new();
    let mut i: usize = 0;
    assert(targets(out@) =~= load_order_of(packages@, packages@.take(0)));
    while i < packages.len()
        invariant
            i <= packages.len(),
            are_depths(packages@, w@, packages.len() as nat),
            targets(out@) == load_order_of(packages@, packages@.take(i as int)),
            out_weights.len() == out.len(),
            forall|k: int|
                0 <= k < out@.len() ==> (#[trigger] out_weights@[k]) == weight(
                    packages@,
                    out@[k].name@,
                ),
        decreases packages.len() - i,
    {
        let ghost s = targets(out@);
        let x = &packages[i];
        let own: usize = w[i];
        let mut at: usize = out.len();
        proof {
            assert(packages@.take(i + 1).drop_last() =~= packages@.take(i as int));
            assert(packages@.take(i + 1).last() == *x);
            assert(s.take(at as int) =~= s);
            assert(placed(packages@, s.take(at as int), *x) + s.skip(at as int) =~= placed(
                packages@,
                s,
                *x,
            ));
        }
        while at > 0 && (own > out_weights[at - 1] || (own == out_weights[at - 1] && less(
            x.name.as_str(),
            out[at - 1].name.as_str(),
        )))
            invariant
                at <= out.len(),
                s == targets(out@),
                own == weight(packages@, x.name@),
                out_weights.len() == out.len(),
                forall|k: int|
                    0 <= k < out@.len() ==> (#[trigger] out_weights@[k]) == weight(
                        packages@,
                        out@[k].name@,
                    ),
                placed(packages@, s.take(at as int), *x) + s.skip(at as int) == placed(
                    packages@,
                    s,
                    *x,
                ),
            decreases at,
        {
            proof {
                let head = s.take(at as int);
                assert(out_weights@[at - 1] == weight(packages@, out@[at - 1].name@));
                assert(head.last() == *out@[at - 1]);
                assert(head.drop_last() =~= s.take(at - 1));
                assert(placed(packages@, s.take(at - 1), *x).push(s[at - 1]) + s.skip(at as int)
                    =~= placed(packages@, s.take(at - 1), *x) + s.skip(at - 1));
            }
            at -= 1;
        }
        proof {
            let head = s.take(at as int);
            if at > 0 {
                assert(out_weights@[at - 1] == weight(packages@, out@[at - 1].name@));
                assert(head.last() == *out@[at - 1]);
            }
            assert(placed(packages@, head, *x) == head.push(*x));
        }
        out.insert(at, x);
        out_weights.insert(at, own);
        assert(targets(out@) =~= s.take(at as int).push(*x) + s.skip(at as int));
        i += 1;
    }
    proof {
        assert(packages@.take(i as int) =~= packages@);
        law_load_order(packages@);
        if !has_cycle(packages@) {
            law_dependencies_load_first(packages@);
            assert forall|i: int, j: int|
                0 <= i < out@.len() && 0 <= j < out@.len() && views(
                    (#[trigger] out@[i]).requires@,
                ).contains((#[trigger] out@[j]).name@) implies j < i by {
                let s = targets(out@);
                assert(asks_for(s[i], s[j].name@));
            }
        }
    }
    out
}

} // verus!
