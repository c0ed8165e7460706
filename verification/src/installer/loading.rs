//! Which packages are asked of the repositories, batch by batch, and with which
//! constraints.
use vstd::prelude::*;
use vstd::string::*;

use indexmap::IndexMap;

use crate::installer::loading_laws::{
    constraint_on, is_alternative, law_every_requirement_is_asked_for,
    law_only_requirements_are_asked_for,
};
use crate::links::{has_link, link_at, link_count, link_entry, links, with_link, Pairs};
use crate::names::{canonical, canonical_package_name, is_platform_package, platform, NameSet};
use crate::package::Package;
use crate::sort::{
    by_name, find_name, law_sorting_orders_and_keeps, lemma_pairs_push, pairs, put_name,
    sort_by_name, sorted_links,
};
use crate::text::{after, ascii_lower, str_equal, to_ascii_lowercase};

verus! {

/// Names that are still to be asked for, each once, with what is asked of it.
#[derive(Debug)]
pub struct Pending {
    pub entries: Vec<(String, String)>,
}

impl View for Pending {
    type V = Pairs;

    open spec fn view(&self) -> Pairs {
        pairs(self.entries@)
    }
}

/// One more constraint on a name: either of the two will do.
pub open spec fn with_constraint(s: Pairs, name: Seq<char>, constraint: Seq<char>) -> Pairs {
    if has_link(s, name) {
        with_link(s, name, s[link_at(s, name)].1 + " || "@ + constraint)
    } else {
        s.push((name, constraint))
    }
}

impl Pending {
    /// Nothing is asked for.
    pub fn new() -> (r: Pending)
        ensures
            r@ == Seq::<(Seq<char>, Seq<char>)>::empty(),
    {
        let r = Pending { entries: Vec::new() };
        assert(r@ =~= Seq::empty());
        r
    }

    /// What is asked of a name.
    pub fn get(&self, name: &str) -> (r: Option<&str>)
        ensures
            r.is_some() == has_link(self@, name@),
            r matches Some(c) ==> c@ == self@[link_at(self@, name@)].1,
    {
        let at: usize = find_name(&self.entries, name);
        if at < self.entries.len() {
            Some(self.entries[at].1.as_str())
        } else {
            None
        }
    }

    /// Whether nothing is asked for.
    pub fn is_empty(&self) -> (r: bool)
        ensures
            r == (self@.len() == 0),
    {
        self.entries.len() == 0
    }
}

/// Adds a constraint on a name to those there are.
pub fn merge_pending_constraint(pending: &mut Pending, name: String, constraint: String)
    ensures
        final(pending)@ == with_constraint(old(pending)@, name@, constraint@),
{
    let ghost s = pending@;
    let at: usize = find_name(&pending.entries, name.as_str());
    if at < pending.entries.len() {
        let joined = pending.entries[at].1.clone().concat(" || ").concat(constraint.as_str());
        put_name(&mut pending.entries, name, joined);
    } else {
        proof {
            lemma_pairs_push(pending.entries@, (name, constraint));
        }
        pending.entries.push((name, constraint));
    }
}

// ---------------------------------------------------------------------------
// The root requirements
// ---------------------------------------------------------------------------
/// The name is asked of the repositories: it is no platform package, and the root
/// package does not stand in for it.
pub open spec fn asked_for(name: Seq<char>, replaced: Set<Seq<char>>) -> bool {
    !platform(name) && !replaced.contains(canonical(name))
}

/// The names that the first `n` requirements put to the repositories.
pub open spec fn required_pending(
    s: Pairs,
    n: int,
    replaced: Set<Seq<char>>,
) -> Pairs
    decreases n,
{
    if n <= 0 || n > s.len() {
        Seq::empty()
    } else {
        let t = required_pending(s, n - 1, replaced);
        if asked_for(s[n - 1].0, replaced) {
            with_link(t, canonical(s[n - 1].0), s[n - 1].1)
        } else {
            t
        }
    }
}

/// `start` with the constraints of the first `n` requirements added.
pub open spec fn added_pending(
    start: Pairs,
    s: Pairs,
    n: int,
    replaced: Set<Seq<char>>,
) -> Pairs
    decreases n,
{
    if n <= 0 || n > s.len() {
        start
    } else {
        let t = added_pending(start, s, n - 1, replaced);
        if asked_for(s[n - 1].0, replaced) {
            with_constraint(t, canonical(s[n - 1].0), s[n - 1].1)
        } else {
            t
        }
    }
}

/// What the root package asks of the repositories.
pub open spec fn root_pending(
    require: Pairs,
    require_dev: Pairs,
    replaced: Set<Seq<char>>,
) -> Pairs {
    let r = by_name(require);
    let d = by_name(require_dev);
    added_pending(required_pending(r, r.len() as int, replaced), d, d.len() as int, replaced)
}

/// What the root package asks of the repositories: its requirements, and those for
/// development beside them.
pub fn root_requirements(
    require: &IndexMap<String, String>,
    require_dev: &IndexMap<String, String>,
    replaced: &NameSet,
) -> (r: Pending)
    ensures
        r@ == root_pending(links(*require), links(*require_dev), replaced@),
{
    let required = sorted_links(require);
    let ghost s = pairs(required@);
    let mut pending = Pending::new();
    let mut i: usize = 0;
    while i < required.len()
        invariant
            i <= required.len(),
            s == pairs(required@),
            pending@ == required_pending(s, i as int, replaced@),
        decreases required.len() - i,
    {
        let name = required[i].0.as_str();
        assert(s[i as int] == (required@[i as int].0@, required@[i as int].1@));
        if !is_platform_package(name) {
            let canonical_name = canonical_package_name(name);
            if !replaced.contains(canonical_name.as_str()) {
                put_name(&mut pending.entries, canonical_name, required[i].1.clone());
            }
        }
        i += 1;
    }
    let developed = sorted_links(require_dev);
    let ghost d = pairs(developed@);
    let ghost start = pending@;
    let mut j: usize = 0;
    while j < developed.len()
        invariant
            j <= developed.len(),
            d == pairs(developed@),
            pending@ == added_pending(start, d, j as int, replaced@),
        decreases developed.len() - j,
    {
        let name = developed[j].0.as_str();
        assert(d[j as int] == (developed@[j as int].0@, developed@[j as int].1@));
        if !is_platform_package(name) {
            let canonical_name = canonical_package_name(name);
            if !replaced.contains(canonical_name.as_str()) {
                merge_pending_constraint(&mut pending, canonical_name, developed[j].1.clone());
            }
        }
        j += 1;
    }
    assert(s.len() == required.len());
    assert(d.len() == developed.len());
    pending
}

/// The canonical names of a list of links.
pub open spec fn link_names(s: Pairs) -> Set<Seq<char>> {
    s.map_values(|e: (Seq<char>, Seq<char>)| canonical(e.0)).to_set()
}

fn add_names(out: &mut NameSet, m: &IndexMap<String, String>)
    ensures
        final(out)@ == old(out)@.union(link_names(links(*m))),
{
    let n: usize = link_count(m);
    let ghost start = out@;
    let ghost all = links(*m).map_values(|e: (Seq<char>, Seq<char>)| canonical(e.0));
    let mut i: usize = 0;
    assert(start.union(all.take(0).to_set()) =~= start);
    while i < n
        invariant
            i <= n == links(*m).len(),
            all == links(*m).map_values(|e: (Seq<char>, Seq<char>)| canonical(e.0)),
            out@ == start.union(all.take(i as int).to_set()),
        decreases n - i,
    {
        if let Some((name, _)) = link_entry(m, i) {
            out.insert(canonical_package_name(name).as_str());
            proof {
                crate::names::lemma_take_to_set(all, i as int);
            }
            assert(out@ =~= start.union(all.take(i + 1).to_set()));
        }
        i += 1;
    }
    assert(all.take(i as int) =~= all);
}

/// The canonical names in two lists of links. What the root package replaces and
/// provides is not asked of the repositories; what it requires is a root requirement.
pub fn linked_names(a: &IndexMap<String, String>, b: &IndexMap<String, String>) -> (r: NameSet)
    ensures
        r@ == link_names(links(*a)).union(link_names(links(*b))),
{
    let mut out = NameSet::new();
    add_names(&mut out, a);
    add_names(&mut out, b);
    assert(out@ =~= link_names(links(*a)).union(link_names(links(*b))));
    out
}

// ---------------------------------------------------------------------------
// Batches
// ---------------------------------------------------------------------------
/// The pairs among the first `n` whose names are not in the set.
pub open spec fn unloaded(s: Pairs, n: int, loaded: Set<Seq<char>>) -> Pairs
    decreases n,
{
    if n <= 0 || n > s.len() {
        Seq::empty()
    } else {
        let t = unloaded(s, n - 1, loaded);
        if loaded.contains(s[n - 1].0) {
            t
        } else {
            t.push(s[n - 1])
        }
    }
}

/// What is asked for next: everything pending that was not loaded, by name.
pub open spec fn batch(pending: Pairs, loaded: Set<Seq<char>>) -> Pairs {
    let s = by_name(pending);
    unloaded(s, s.len() as int, loaded)
}

/// The names of the pairs.
pub open spec fn pair_names(s: Pairs) -> Set<Seq<char>> {
    s.map_values(|e: (Seq<char>, Seq<char>)| e.0).to_set()
}

/// Takes what is asked for next. Nothing is pending afterwards, and the names that
/// are asked for count as loaded.
pub fn next_batch(pending: &mut Pending, loaded: &mut NameSet) -> (r: Vec<(String, String)>)
    ensures
        pairs(r@) == batch(old(pending)@, old(loaded)@),
        final(pending)@.len() == 0,
        final(loaded)@ == old(loaded)@.union(pair_names(pairs(r@))),
{
    let mut taken: Vec<(String, String)> = Vec::new();
    core::mem::swap(&mut taken, &mut pending.entries);
    let list = sort_by_name(taken);
    let ghost s = pairs(list@);
    let ghost had = loaded@;
    let mut out: Vec<(String, String)> = Vec::new();
    let mut i: usize = 0;
    assert(pairs(out@) =~= unloaded(s, 0, had));
    while i < list.len()
        invariant
            i <= list.len(),
            s == pairs(list@),
            had == loaded@,
            pairs(out@) == unloaded(s, i as int, had),
        decreases list.len() - i,
    {
        assert(s[i as int] == (list@[i as int].0@, list@[i as int].1@));
        if !loaded.contains(list[i].0.as_str()) {
            let one = (list[i].0.clone(), list[i].1.clone());
            proof {
                lemma_pairs_push(out@, one);
            }
            out.push(one);
        }
        i += 1;
    }
    assert(s.len() == list.len());
    let ghost all = pairs(out@).map_values(|e: (Seq<char>, Seq<char>)| e.0);
    let mut j: usize = 0;
    assert(had.union(all.take(0).to_set()) =~= had);
    while j < out.len()
        invariant
            j <= out.len(),
            all == pairs(out@).map_values(|e: (Seq<char>, Seq<char>)| e.0),
            loaded@ == had.union(all.take(j as int).to_set()),
        decreases out.len() - j,
    {
        loaded.insert(out[j].0.as_str());
        proof {
            assert(all[j as int] == out@[j as int].0@);
            crate::names::lemma_take_to_set(all, j as int);
        }
        j += 1;
        assert(loaded@ =~= had.union(all.take(j as int).to_set()));
    }
    assert(all.take(j as int) =~= all);
    out
}

/// The requirements among the first `n` that lead to names not loaded yet.
pub open spec fn new_links(s: Pairs, n: int, loaded: Set<Seq<char>>) -> Pairs
    decreases n,
{
    if n <= 0 || n > s.len() {
        Seq::empty()
    } else {
        let t = new_links(s, n - 1, loaded);
        if asked_for(s[n - 1].0, loaded) {
            t.push((canonical(s[n - 1].0), s[n - 1].1))
        } else {
            t
        }
    }
}

/// The requirements of the first `n` packages that lead to names not loaded yet.
pub open spec fn new_dependencies(packages: Seq<Package>, n: int, loaded: Set<Seq<char>>) -> Pairs
    decreases n,
{
    if n <= 0 || n > packages.len() {
        Seq::empty()
    } else {
        let own = links(packages[n - 1].require);
        new_dependencies(packages, n - 1, loaded) + new_links(own, own.len() as int, loaded)
    }
}

/// The constraints of the first `n` pairs added.
pub open spec fn all_added(start: Pairs, s: Pairs, n: int) -> Pairs
    decreases n,
{
    if n <= 0 || n > s.len() {
        start
    } else {
        with_constraint(all_added(start, s, n - 1), s[n - 1].0, s[n - 1].1)
    }
}

/// What is pending once the packages of a batch are there, given in the order in
/// which they came.
pub open spec fn absorbed(
    pending: Pairs,
    packages: Seq<Package>,
    loaded: Set<Seq<char>>,
) -> Pairs {
    let found = by_name(new_dependencies(packages, packages.len() as int, loaded));
    all_added(pending, found, found.len() as int)
}

/// Adds what the packages of a batch require to what is pending.
pub fn absorb(pending: &mut Pending, packages: &[Package], loaded: &NameSet)
    ensures
        final(pending)@ == absorbed(old(pending)@, packages@, loaded@),
        forall|i: int, j: int|
            0 <= i < packages@.len() && 0 <= j < links(packages@[i].require).len() && !platform(
                (#[trigger] links(packages@[i].require)[j]).0,
            ) && !loaded@.contains(canonical(links(packages@[i].require)[j].0)) ==> has_link(
                final(pending)@,
                canonical(links(packages@[i].require)[j].0),
            ) && is_alternative(
                links(packages@[i].require)[j].1,
                constraint_on(final(pending)@, canonical(links(packages@[i].require)[j].0)),
            ),
        forall|name: Seq<char>| #[trigger]
            has_link(final(pending)@, name) && !has_link(old(pending)@, name) ==> exists|
                i: int,
                j: int,
            |
                0 <= i < packages@.len() && 0 <= j < links(packages@[i].require).len() && !platform(
                    (#[trigger] links(packages@[i].require)[j]).0,
                ) && canonical(links(packages@[i].require)[j].0) == name && !loaded@.contains(name),
{
    let mut found: Vec<(String, String)> = Vec::new();
    let mut i: usize = 0;
    assert(pairs(found@) =~= new_dependencies(packages@, 0, loaded@));
    while i < packages.len()
        invariant
            i <= packages.len(),
            pairs(found@) == new_dependencies(packages@, i as int, loaded@),
        decreases packages.len() - i,
    {
        let ghost before = pairs(found@);
        let ghost own = links(packages@[i as int].require);
        let n: usize = link_count(&packages[i].require);
        let mut j: usize = 0;
        assert(pairs(found@) =~= before + new_links(own, 0, loaded@));
        while j < n
            invariant
                i < packages.len(),
                j <= n == own.len(),
                own == links(packages@[i as int].require),
                pairs(found@) == before + new_links(own, j as int, loaded@),
            decreases n - j,
        {
            if let Some((name, constraint)) = link_entry(&packages[i].require, j) {
                if !is_platform_package(name) {
                    let dependency = canonical_package_name(name);
                    if !loaded.contains(dependency.as_str()) {
                        let one = (dependency, constraint.to_owned());
                        proof {
                            lemma_pairs_push(found@, one);
                        }
                        found.push(one);
                    }
                }
            }
            j += 1;
            assert(pairs(found@) =~= before + new_links(own, j as int, loaded@));
        }
        i += 1;
    }
    let sorted = sort_by_name(found);
    let ghost s = pairs(sorted@);
    let ghost start = pending@;
    let mut k: usize = 0;
    while k < sorted.len()
        invariant
            k <= sorted.len(),
            s == pairs(sorted@),
            pending@ == all_added(start, s, k as int),
        decreases sorted.len() - k,
    {
        assert(s[k as int] == (sorted@[k as int].0@, sorted@[k as int].1@));
        merge_pending_constraint(pending, sorted[k].0.clone(), sorted[k].1.clone());
        k += 1;
    }
    assert(s.len() == sorted.len());
    proof {
        assert forall|i: int, j: int|
            0 <= i < packages@.len() && 0 <= j < links(packages@[i].require).len() && !platform(
                (#[trigger] links(packages@[i].require)[j]).0,
            ) && !loaded@.contains(canonical(links(packages@[i].require)[j].0)) implies has_link(
            pending@,
            canonical(links(packages@[i].require)[j].0),
        ) && is_alternative(
            links(packages@[i].require)[j].1,
            constraint_on(pending@, canonical(links(packages@[i].require)[j].0)),
        ) by {
            law_every_requirement_is_asked_for(start, packages@, loaded@, i, j);
        }
        assert forall|name: Seq<char>| #[trigger]
            has_link(pending@, name) && !has_link(start, name) implies exists|i: int, j: int|
            0 <= i < packages@.len() && 0 <= j < links(packages@[i].require).len() && !platform(
                (#[trigger] links(packages@[i].require)[j]).0,
            ) && canonical(links(packages@[i].require)[j].0) == name && !loaded@.contains(name) by {
            law_only_requirements_are_asked_for(start, packages@, loaded@, name);
        }
    }
}

/// No name of a batch was loaded before: every name is asked for at most once.
pub proof fn law_batch_is_new(pending: Pairs, loaded: Set<Seq<char>>)
    ensures
        forall|i: int|
            0 <= i < batch(pending, loaded).len() ==> !loaded.contains(
                (#[trigger] batch(pending, loaded)[i]).0,
            ),
{
    lemma_unloaded(by_name(pending), by_name(pending).len() as int, loaded);
}

proof fn lemma_unloaded(s: Pairs, n: int, loaded: Set<Seq<char>>)
    ensures
        forall|i: int|
            0 <= i < unloaded(s, n, loaded).len() ==> !loaded.contains(
                (#[trigger] unloaded(s, n, loaded)[i]).0,
            ),
    decreases n,
{
    if 0 < n <= s.len() {
        lemma_unloaded(s, n - 1, loaded);
        let t = unloaded(s, n - 1, loaded);
        assert forall|i: int| 0 <= i < unloaded(s, n, loaded).len() implies !loaded.contains(
            (#[trigger] unloaded(s, n, loaded)[i]).0,
        ) by {
            if i < t.len() {
                assert(unloaded(s, n, loaded)[i] == t[i]);
            }
        }
    }
}

// ---------------------------------------------------------------------------
// Stability
// ---------------------------------------------------------------------------
/// How stable a version is, the most stable first.
#[derive(Debug, Clone, Copy, PartialEq, Eq, Structural)]
pub enum Stability {
    Stable,
    Rc,
    Beta,
    Alpha,
    Dev,
}

/// The stability that a word stands for.
pub open spec fn stability_of(word: Seq<char>) -> Option<Stability> {
    let w = ascii_lower(word);
    if w == "stable"@ {
        Some(Stability::Stable)
    } else if w == "rc"@ {
        Some(Stability::Rc)
    } else if w == "beta"@ {
        Some(Stability::Beta)
    } else if w == "alpha"@ {
        Some(Stability::Alpha)
    } else if w == "dev"@ {
        Some(Stability::Dev)
    } else {
        None
    }
}

/// The stability that a word stands for.
pub fn parse_stability(word: &str) -> (r: Option<Stability>)
    ensures
        r == stability_of(word@),
{
    let w = to_ascii_lowercase(word);
    let w = w.as_str();
    if str_equal(w, "stable") {
        Some(Stability::Stable)
    } else if str_equal(w, "rc") {
        Some(Stability::Rc)
    } else if str_equal(w, "beta") {
        Some(Stability::Beta)
    } else if str_equal(w, "alpha") {
        Some(Stability::Alpha)
    } else if str_equal(w, "dev") {
        Some(Stability::Dev)
    } else {
        None
    }
}

/// The least stability that is accepted: stable where the manifest names none that is known.
pub fn minimum_stability(named: &Option<String>) -> (r: Stability)
    ensures
        r == match named {
            Some(w) => match stability_of(w@) {
                Some(s) => s,
                None => Stability::Stable,
            },
            None => Stability::Stable,
        },
{
    match named {
        Some(w) => match parse_stability(w.as_str()) {
            Some(s) => s,
            None => Stability::Stable,
        },
        None => Stability::Stable,
    }
}

/// The position behind the last `@`; 0 where there is none.
pub open spec fn behind_at(s: Seq<char>) -> int
    decreases s.len(),
{
    if s.len() == 0 {
        0
    } else if s.last() == '@' {
        s.len() as int
    } else {
        behind_at(s.drop_last())
    }
}

/// The stability that a constraint asks for behind its last `@`, where that is not
/// the stable one.
pub open spec fn stability_flag(constraint: Seq<char>) -> Option<Stability> {
    if behind_at(constraint) == 0 {
        None
    } else {
        match stability_of(after(constraint, behind_at(constraint))) {
            Some(Stability::Stable) => None,
            other => other,
        }
    }
}

/// The stability that a constraint asks for.
pub fn extract_stability_flag(constraint: &str) -> (r: Option<Stability>)
    ensures
        r == stability_flag(constraint@),
{
    let v = crate::text::chars_of(constraint);
    let mut i: usize = v.len();
    assert(v@.take(i as int) =~= v@);
    while i > 0 && v[i - 1] != '@'
        invariant
            i <= v.len(),
            v@ == constraint@,
            behind_at(v@) == behind_at(v@.take(i as int)),
        decreases i,
    {
        assert(v@.take(i as int).drop_last() =~= v@.take(i - 1));
        i -= 1;
    }
    if i == 0 {
        return None;
    }
    let word = crate::text::string_of(&v, i, v.len());
    assert(word@ =~= after(constraint@, i as int));
    match parse_stability(word.as_str()) {
        Some(Stability::Stable) => None,
        other => other,
    }
}

/// The flags of the first `n` requirements.
pub open spec fn flags(s: Pairs, n: int) -> Seq<(Seq<char>, Stability)>
    decreases n,
{
    if n <= 0 || n > s.len() {
        Seq::empty()
    } else {
        let t = flags(s, n - 1);
        match stability_flag(s[n - 1].1) {
            Some(f) => t.push((s[n - 1].0, f)),
            None => t,
        }
    }
}

/// What a list of flags holds.
pub open spec fn flag_pairs(v: Seq<(String, Stability)>) -> Seq<(Seq<char>, Stability)> {
    v.map_values(|p: (String, Stability)| (p.0@, p.1))
}

/// The stabilities that the requirements ask for, by name.
pub fn stability_flags(require: &IndexMap<String, String>) -> (r: Vec<(String, Stability)>)
    ensures
        flag_pairs(r@) == flags(by_name(links(*require)), links(*require).len() as int),
{
    let list = sorted_links(require);
    let ghost s = pairs(list@);
    proof {
        law_sorting_orders_and_keeps(links(*require));
    }
    let mut out: Vec<(String, Stability)> = Vec::new();
    let mut i: usize = 0;
    assert(flag_pairs(out@) =~= flags(s, 0));
    while i < list.len()
        invariant
            i <= list.len(),
            s == pairs(list@),
            flag_pairs(out@) == flags(s, i as int),
        decreases list.len() - i,
    {
        assert(s[i as int] == (list@[i as int].0@, list@[i as int].1@));
        let ghost before = out@;
        if let Some(f) = extract_stability_flag(list[i].1.as_str()) {
            out.push((list[i].0.clone(), f));
            assert(flag_pairs(out@) =~= flag_pairs(before).push((s[i as int].0, f)));
        }
        i += 1;
    }
    assert(s.len() == list.len());
    out
}

/// The requirements among the first `n` that are put to the solver.
pub open spec fn solvable(s: Pairs, n: int) -> Pairs
    decreases n,
{
    if n <= 0 || n > s.len() {
        Seq::empty()
    } else if platform(s[n - 1].0) {
        solvable(s, n - 1)
    } else {
        solvable(s, n - 1).push(s[n - 1])
    }
}

/// The requirements that are put to the solver, by name: all but those on the platform.
pub fn solver_requirements(require: &IndexMap<String, String>) -> (r: Vec<(String, String)>)
    ensures
        pairs(r@) == solvable(by_name(links(*require)), links(*require).len() as int),
{
    let list = sorted_links(require);
    let ghost s = pairs(list@);
    proof {
        law_sorting_orders_and_keeps(links(*require));
    }
    let mut out: Vec<(String, String)> = Vec::new();
    let mut i: usize = 0;
    assert(pairs(out@) =~= solvable(s, 0));
    while i < list.len()
        invariant
            i <= list.len(),
            s == pairs(list@),
            pairs(out@) == solvable(s, i as int),
        decreases list.len() - i,
    {
        assert(s[i as int] == (list@[i as int].0@, list@[i as int].1@));
        if !is_platform_package(list[i].0.as_str()) {
            let one = (list[i].0.clone(), list[i].1.clone());
            proof {
                lemma_pairs_push(out@, one);
            }
            out.push(one);
        }
        i += 1;
    }
    assert(s.len() == list.len());
    out
}

} // verus!
