//! The packages that the resolution chooses from, in an order that does not depend on which
//! repository answers first.
use vstd::prelude::*;

use crate::names::{canonical, canonical_package_name, NameSet};
use crate::package::Package;
use crate::schema::ComposerJson;
use crate::links::{link_count, links};
use crate::sorted::{
    ascending, find_place, is_at, is_present, keys, lemma_place, names_of, place, placed,
};
use crate::text::{less, precedes};

verus! {

/// Packages by name.
pub type Batches = Seq<(Seq<char>, Seq<Package>)>;

/// Packages by name.
pub open spec fn batches(v: Seq<(String, Vec<Package>)>) -> Batches {
    v.map_values(|e: (String, Vec<Package>)| (e.0@, e.1@))
}

/// The packages under a name.
pub open spec fn under(s: Batches, name: Seq<char>) -> Seq<Package> {
    if is_present(keys(s), name) {
        s[place(keys(s), name)].1
    } else {
        Seq::empty()
    }
}

/// The batches with more packages under a name, behind those that are there.
pub open spec fn with_batch(s: Batches, name: Seq<char>, more: Seq<Package>) -> Batches {
    placed(s, name, under(s, name) + more)
}

/// Adds packages under a name.
pub fn add_batch(v: &mut Vec<(String, Vec<Package>)>, name: &str, more: Vec<Package>)
    ensures
        batches(final(v)@) == with_batch(batches(old(v)@), name@, more@),
{
    let ghost before = batches(v@);
    proof {
        assert(keys(before) =~= names_of(v@));
        lemma_place(names_of(v@), name@);
    }
    let at: usize = find_place(v, name);
    if is_at(v, at, name) {
        assert(before[at as int] == (v@[at as int].0@, v@[at as int].1@));
        let ghost there = v@[at as int].1@;
        let old_entry = v.remove(at);
        let mut list = old_entry.1;
        let mut more = more;
        let ghost added = more@;
        list.append(&mut more);
        assert(list@ == there + added);
        v.insert(at, (name.to_owned(), list));
        assert(batches(v@) =~= before.update(at as int, (name@, there + added)));
    } else {
        assert(Seq::<Package>::empty() + more@ =~= more@);
        v.insert(at, (name.to_owned(), more));
        assert(batches(v@) =~= before.insert(at as int, (name@, more@)));
    }
}

/// A package in its place among others that are in the order of their versions, behind those
/// of the same version.
pub open spec fn version_inserted(s: Seq<Package>, p: Package) -> Seq<Package>
    decreases s.len(),
{
    if s.len() > 0 && precedes(p.version@, s.last().version@) {
        version_inserted(s.drop_last(), p).push(s.last())
    } else {
        s.push(p)
    }
}

/// The packages in the order of their versions as texts; those of the same version stay as
/// they are.
pub open spec fn by_version(s: Seq<Package>) -> Seq<Package>
    decreases s.len(),
{
    if s.len() == 0 {
        s
    } else {
        version_inserted(by_version(s.drop_last()), s.last())
    }
}

/// The packages of the first `n` batches in the order of names and versions.
pub open spec fn pool_order(s: Batches, n: int) -> Seq<Package>
    decreases n,
{
    if n <= 0 || n > s.len() {
        Seq::empty()
    } else {
        pool_order(s, n - 1) + by_version(s[n - 1].1)
    }
}

fn insert_by_version(out: &mut Vec<Package>, p: Package)
    ensures
        final(out)@ == version_inserted(old(out)@, p),
{
    let ghost s = out@;
    let mut j: usize = out.len();
    assert(s.take(j as int) =~= s);
    assert(s.skip(j as int) =~= Seq::empty());
    assert(version_inserted(s, p) =~= version_inserted(s.take(j as int), p) + s.skip(j as int));
    while j > 0 && less(p.version.as_str(), out[j - 1].version.as_str())
        invariant
            j <= out.len(),
            out@ == s,
            version_inserted(s, p) == version_inserted(s.take(j as int), p) + s.skip(j as int),
        decreases j,
    {
        proof {
            let t = s.take(j as int);
            assert(t.last() == s[j - 1]);
            assert(t.drop_last() =~= s.take(j - 1));
            assert(version_inserted(t.drop_last(), p).push(s[j - 1]) + s.skip(j as int)
                =~= version_inserted(s.take(j - 1), p) + s.skip(j - 1));
        }
        j -= 1;
    }
    proof {
        let t = s.take(j as int);
        if j > 0 {
            assert(t.last() == s[j - 1]);
        }
        assert(version_inserted(t, p) =~= t.push(p));
        assert(s.insert(j as int, p) =~= t.push(p) + s.skip(j as int));
    }
    out.insert(j, p);
}

fn sort_by_version(v: Vec<Package>) -> (r: Vec<Package>)
    ensures
        r@ == by_version(v@),
{
    let ghost s = v@;
    let mut rest = v;
    let mut out: Vec<Package> = Vec::new();
    assert(s.take(0) =~= Seq::empty());
    assert(rest@ =~= s.skip(0));
    let ghost mut i: int = 0;
    while rest.len() > 0
        invariant
            0 <= i <= s.len(),
            rest@ == s.skip(i),
            out@ == by_version(s.take(i)),
        decreases rest.len(),
    {
        let p = rest.remove(0);
        proof {
            assert(p == s[i]);
            assert(rest@ =~= s.skip(i + 1));
            assert(s.take(i + 1).drop_last() =~= s.take(i));
            assert(s.take(i + 1).last() == p);
            i = i + 1;
        }
        insert_by_version(&mut out, p);
    }
    assert(s.take(i) =~= s);
    out
}

/// The packages in the order of names and versions.
pub fn pool_packages(v: Vec<(String, Vec<Package>)>) -> (r: Vec<Package>)
    ensures
        r@ == pool_order(batches(v@), v@.len() as int),
{
    let ghost s = batches(v@);
    let mut rest = v;
    let ghost mut i: int = 0;
    let mut out: Vec<Package> = Vec::new();
    assert(batches(rest@) =~= s.skip(0));
    while rest.len() > 0
        invariant
            0 <= i <= s.len(),
            batches(rest@) == s.skip(i),
            out@ == pool_order(s, i),
        decreases rest.len(),
    {
        assert(batches(rest@).len() == rest@.len());
        assert(batches(rest@)[0] == (rest@[0].0@, rest@[0].1@));
        let ghost before = batches(rest@);
        let entry = rest.remove(0);
        assert(batches(rest@) =~= before.drop_first());
        assert(before.drop_first() =~= s.skip(i + 1));
        let mut more = sort_by_version(entry.1);
        out.append(&mut more);
        proof {
            i = i + 1;
        }
    }
    assert(batches(rest@).len() == rest@.len());
    out
}

/// The project itself stands in the pool: it replaces or provides something.
pub fn root_stands_in_pool(manifest: &ComposerJson) -> (r: bool)
    ensures
        r == (links(manifest.replace).len() > 0 || links(manifest.provide).len() > 0),
{
    link_count(&manifest.replace) > 0 || link_count(&manifest.provide) > 0
}

/// A dry run goes by an outline of the packages, where their names and versions prove already
/// that the lock file changes.
pub fn outline_suffices(dry_run: bool, identity_changed: bool) -> (r: bool)
    ensures
        r == (dry_run && identity_changed),
{
    dry_run && identity_changed
}

/// The canonical names of the first `n` packages.
pub open spec fn names_among(packages: Seq<Package>, n: int) -> Set<Seq<char>>
    decreases n,
{
    if n <= 0 || n > packages.len() {
        Set::empty()
    } else {
        names_among(packages, n - 1).insert(canonical(packages[n - 1].name@))
    }
}

/// What an audit after a dry run takes for installed: what is.
pub fn audit_installed_names(dry_run: bool, present: &Vec<Package>) -> (r: Option<NameSet>)
    ensures
        r.is_some() == dry_run,
        r matches Some(s) ==> s@ == names_among(present@, present@.len() as int),
{
    if !dry_run {
        return None;
    }
    let mut out = NameSet::new();
    let mut i: usize = 0;
    while i < present.len()
        invariant
            i <= present.len(),
            out@ == names_among(present@, i as int),
        decreases present.len() - i,
    {
        out.insert(canonical_package_name(present[i].name.as_str()).as_str());
        i += 1;
    }
    Some(out)
}

/// The pool is the same whichever of two batches comes first.
pub proof fn law_pool_ignores_order_of_arrival(
    s: Batches,
    a: Seq<char>,
    x: Seq<Package>,
    b: Seq<char>,
    y: Seq<Package>,
)
    requires
        ascending(keys(s)),
        a != b,
    ensures
        with_batch(with_batch(s, a, x), b, y) == with_batch(with_batch(s, b, y), a, x),
{
    lemma_under_other(s, a, under(s, a) + x, b);
    lemma_under_other(s, b, under(s, b) + y, a);
    crate::sorted::law_order_of_arrival_does_not_matter(
        s,
        a,
        under(s, a) + x,
        b,
        under(s, b) + y,
    );
}

pub proof fn lemma_under_other(s: Batches, a: Seq<char>, v: Seq<Package>, b: Seq<char>)
    requires
        ascending(keys(s)),
        a != b,
    ensures
        under(placed(s, a, v), b) == under(s, b),
{
    let r = placed(s, a, v);
    crate::sorted::law_put_values_are_sorted_and_found(s, a, v);
    crate::sorted::lemma_placed_set(s, a, v);
    crate::sorted::lemma_ascending(keys(s), b);
    crate::sorted::lemma_ascending(keys(r), b);
    lemma_place(keys(s), b);
    lemma_place(keys(r), b);
    if is_present(keys(s), b) {
        let e = s[place(keys(s), b)];
        assert(keys(s)[place(keys(s), b)] == e.0);
        assert(s.to_set().contains(e));
        assert(r.to_set().contains(e));
        let k = choose|k: int| 0 <= k < r.len() && r[k] == e;
        assert(keys(r)[k] == b);
        lemma_one_place(r, k, b);
    }
    if is_present(keys(r), b) {
        let e = r[place(keys(r), b)];
        assert(keys(r)[place(keys(r), b)] == e.0);
        assert(r.to_set().contains(e));
        assert(s.to_set().contains(e));
        let k = choose|k: int| 0 <= k < s.len() && s[k] == e;
        assert(keys(s)[k] == b);
        lemma_one_place(s, k, b);
    }
}

pub proof fn lemma_one_place(s: Batches, k: int, name: Seq<char>)
    requires
        ascending(keys(s)),
        0 <= k < s.len(),
        s[k].0 == name,
    ensures
        place(keys(s), name) == k,
        is_present(keys(s), name),
{
    crate::sorted::lemma_ascending(keys(s), name);
    lemma_place(keys(s), name);
    let at = place(keys(s), name);
    assert(keys(s)[k] == name);
    assert(keys(s).contains(name));
    crate::text::lemma_precedes_total(name, name);
    assert(keys(s)[at] == name);
    if at < k {
        assert(precedes(keys(s)[at], keys(s)[k]));
    }
    if k < at {
        assert(precedes(keys(s)[k], keys(s)[at]));
    }
}

} // verus!
