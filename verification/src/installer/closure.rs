//! Which packages depend on which: the packages that a set of names pulls in.
use vstd::prelude::*;
use vstd::string::*;

use crate::links::{link_count, link_entry, links};
use crate::names::{canonical, canonical_package_name, is_platform_package, platform, NameSet};
use crate::package::Package;
use crate::text::{lemma_views_push, str_equal, views};

verus! {

/// One name leads to another.
pub type Edge = spec_fn(Seq<char>, Seq<char>) -> bool;

/// Nothing leads out of the set.
pub open spec fn closed_under(edge: Edge, s: Set<Seq<char>>) -> bool {
    forall|a: Seq<char>, b: Seq<char>| s.contains(a) && #[trigger] edge(a, b) ==> s.contains(b)
}

/// `s` holds `start` and everything that it leads to, and nothing else: it is the
/// least set that holds `start` and that nothing leads out of.
pub open spec fn is_closure(edge: Edge, start: Set<Seq<char>>, s: Set<Seq<char>>) -> bool {
    &&& start.subset_of(s)
    &&& closed_under(edge, s)
    &&& forall|t: Set<Seq<char>>|
        start.subset_of(t) && #[trigger] closed_under(edge, t) ==> s.subset_of(t)
}

/// There is only one closure.
pub proof fn law_closure_is_unique(
    edge: Edge,
    start: Set<Seq<char>>,
    s: Set<Seq<char>>,
    t: Set<Seq<char>>,
)
    requires
        is_closure(edge, start, s),
        is_closure(edge, start, t),
    ensures
        s == t,
{
    assert(s.subset_of(t));
    assert(t.subset_of(s));
    assert(s =~= t);
}

/// More names pull in more packages.
pub proof fn law_closure_grows_with_start(
    edge: Edge,
    start: Set<Seq<char>>,
    more: Set<Seq<char>>,
    s: Set<Seq<char>>,
    t: Set<Seq<char>>,
)
    requires
        start.subset_of(more),
        is_closure(edge, start, s),
        is_closure(edge, more, t),
    ensures
        s.subset_of(t),
{
    assert(closed_under(edge, t));
}

/// What a package requires, platform packages aside, by canonical name.
pub open spec fn depends_on(p: Package, b: Seq<char>) -> bool {
    exists|j: int|
        0 <= j < links(p.require).len() && !platform((#[trigger] links(p.require)[j]).0)
            && canonical(links(p.require)[j].0) == b
}

/// The position of the last package with the canonical name; -1 where there is none.
pub open spec fn last_named(packages: Seq<&Package>, name: Seq<char>) -> int
    decreases packages.len(),
{
    if packages.len() == 0 {
        -1
    } else if canonical(packages.last().name@) == name {
        packages.len() - 1
    } else {
        last_named(packages.drop_last(), name)
    }
}

/// The package that a name stands for requires another.
pub open spec fn selected_edge(packages: Seq<&Package>) -> Edge {
    |a: Seq<char>, b: Seq<char>|
        last_named(packages, a) >= 0 && depends_on(*packages[last_named(packages, a)], b)
}

/// How many of the names are not in the set.
pub open spec fn missing(names: Seq<Seq<char>>, s: Set<Seq<char>>) -> nat
    decreases names.len(),
{
    if names.len() == 0 {
        0
    } else {
        missing(names.drop_last(), s) + if s.contains(names.last()) {
            0nat
        } else {
            1nat
        }
    }
}

proof fn lemma_missing_shrinks(names: Seq<Seq<char>>, s: Set<Seq<char>>, x: Seq<char>)
    ensures
        missing(names, s.insert(x)) <= missing(names, s),
        names.contains(x) && !s.contains(x) ==> missing(names, s.insert(x)) < missing(names, s),
    decreases names.len(),
{
    if names.len() > 0 {
        lemma_missing_shrinks(names.drop_last(), s, x);
        if names.contains(x) && !s.contains(x) && names.last() != x {
            let i = choose|i: int| 0 <= i < names.len() && names[i] == x;
            assert(names.drop_last()[i] == x);
        }
    }
}

pub proof fn lemma_last_named(packages: Seq<&Package>, name: Seq<char>)
    ensures
        -1 <= last_named(packages, name) < packages.len(),
        last_named(packages, name) >= 0 ==> canonical(
            packages[last_named(packages, name)].name@,
        ) == name,
    decreases packages.len(),
{
    if packages.len() > 0 && canonical(packages.last().name@) != name {
        lemma_last_named(packages.drop_last(), name);
    }
}

/// The canonical names of the packages.
pub open spec fn canonical_names(packages: Seq<&Package>) -> Seq<Seq<char>> {
    packages.map_values(|p: &Package| canonical(p.name@))
}

fn find_last(packages: &[&Package], name: &str) -> (r: Option<usize>)
    ensures
        match r {
            Some(i) => i == last_named(packages@, name@),
            None => last_named(packages@, name@) == -1,
        },
{
    let mut i: usize = packages.len();
    assert(packages@.take(i as int) =~= packages@);
    while i > 0
        invariant
            i <= packages.len(),
            last_named(packages@, name@) == last_named(packages@.take(i as int), name@),
        decreases i,
    {
        proof {
            assert(packages@.take(i as int).last() == packages@[i - 1]);
            assert(packages@.take(i as int).drop_last() =~= packages@.take(i - 1));
        }
        let have = canonical_package_name(packages[i - 1].name.as_str());
        if str_equal(have.as_str(), name) {
            return Some(i - 1);
        }
        i -= 1;
    }
    None
}

/// The canonical names that a package requires, platform packages aside.
fn required_names(p: &Package) -> (r: Vec<String>)
    ensures
        forall|b: Seq<char>| views(r@).contains(b) <==> depends_on(*p, b),
{
    let n: usize = link_count(&p.require);
    let ghost all = links(p.require);
    let mut out: Vec<String> = Vec::new();
    let mut j: usize = 0;
    while j < n
        invariant
            j <= n == all.len(),
            all == links(p.require),
            forall|b: Seq<char>|
                views(out@).contains(b) <==> exists|k: int|
                    0 <= k < j && !platform((#[trigger] all[k]).0) && canonical(all[k].0) == b,
        decreases n - j,
    {
        let ghost before = views(out@);
        if let Some((name, _)) = link_entry(&p.require, j) {
            if !is_platform_package(name) {
                let one = canonical_package_name(name);
                proof {
                    lemma_views_push(out@, one);
                }
                out.push(one);
                proof {
                    assert forall|b: Seq<char>| views(out@).contains(b) <==> exists|k: int|
                        0 <= k < j + 1 && !platform((#[trigger] all[k]).0) && canonical(all[k].0)
                            == b by {
                        if before.contains(b) {
                            let i = choose|i: int| 0 <= i < before.len() && before[i] == b;
                            assert(views(out@)[i] == b);
                        }
                        if b == one@ {
                            assert(views(out@)[before.len() as int] == b);
                            assert(!platform(all[j as int].0) && canonical(all[j as int].0) == b);
                        }
                        if views(out@).contains(b) && b != one@ {
                            let i = choose|i: int|
                                0 <= i < views(out@).len() && views(out@)[i] == b;
                            assert(before[i] == b);
                        }
                    }
                }
            }
        }
        j += 1;
    }
    out
}

/// The names that `roots` pulls in: the roots, and what each package that one of
/// them stands for requires. A name that no package has pulls nothing in.
pub fn find_transitive_dependencies(packages: &[&Package], roots: &NameSet) -> (r: NameSet)
    ensures
        is_closure(selected_edge(packages@), roots@, r@),
{
    let ghost edge = selected_edge(packages@);
    let ghost names = canonical_names(packages@);
    let mut result = NameSet::new();
    let mut queue = roots.to_names();
    let mut head: usize = 0;
    proof {
        assert forall|x: Seq<char>| roots@.contains(x) implies views(queue@).contains(x) by {
            assert(views(queue@).to_set().contains(x));
        }
        assert forall|i: int| 0 <= i < queue@.len() implies roots@.contains(
            (#[trigger] queue@[i])@,
        ) by {
            assert(views(queue@)[i] == queue@[i]@);
            assert(views(queue@).to_set().contains(views(queue@)[i]));
        }
    }
    while head < queue.len()
        invariant
            head <= queue.len(),
            edge == selected_edge(packages@),
            names == canonical_names(packages@),
            // What was found is pulled in by the roots.
            forall|t: Set<Seq<char>>|
                roots@.subset_of(t) && #[trigger] closed_under(edge, t) ==> result@.subset_of(t)
                    && forall|i: int| 0 <= i < queue@.len() ==> t.contains((#[trigger] queue@[i])@),
            // Every root was found or is waiting.
            forall|x: Seq<char>|
                roots@.contains(x) ==> result@.contains(x) || waiting(queue@, head as int, x),
            // So was everything that was led to.
            forall|a: Seq<char>, b: Seq<char>|
                result@.contains(a) && #[trigger] edge(a, b) ==> result@.contains(b) || waiting(
                    queue@,
                    head as int,
                    b,
                ),
        decreases missing(names, result@), queue.len() - head,
    {
        let name = queue[head].clone();
        let ghost before = result@;
        let ghost waited = queue@;
        let ghost from = head as int;
        head += 1;
        if result.contains(name.as_str()) {
            proof {
                lemma_waiting_step(waited, from, result@);
            }
            continue ;
        }
        let found = find_last(packages, name.as_str());
        result.insert(name.as_str());
        proof {
            lemma_missing_shrinks(names, before, name@);
            lemma_last_named(packages@, name@);
        }
        match found {
            Some(at) => {
                proof {
                    assert(names[at as int] == name@);
                    assert(names.contains(name@));
                }
                let needed = required_names(packages[at]);
                let mut j: usize = 0;
                while j < needed.len()
                    invariant
                        j <= needed.len(),
                        at < packages.len(),
                        head <= queue.len(),
                        head == from + 1,
                        edge == selected_edge(packages@),
                        at == last_named(packages@, name@),
                        result@ == before.insert(name@),
                        queue@.len() >= waited.len(),
                        queue@.take(waited.len() as int) == waited,
                        forall|b: Seq<char>|
                            views(needed@).contains(b) <==> depends_on(*packages@[at as int], b),
                        forall|i: int|
                            waited.len() <= i < queue@.len() ==> edge(name@, (#[trigger] queue@[i])@),
                        forall|k: int|
                            0 <= k < j ==> result@.contains(views(needed@)[k]) || waiting(
                                queue@,
                                head as int,
                                #[trigger] views(needed@)[k],
                            ),
                    decreases needed.len() - j,
                {
                    let ghost queued = queue@;
                    assert(views(needed@)[j as int] == needed@[j as int]@);
                    if !result.contains(needed[j].as_str()) {
                        proof {
                            assert(views(needed@).contains(needed@[j as int]@));
                        }
                        queue.push(needed[j].clone());
                        proof {
                            assert(queue@.take(waited.len() as int) =~= waited);
                            assert(queue@[queued.len() as int]@ == views(needed@)[j as int]);
                            assert(waiting(queue@, head as int, views(needed@)[j as int]));
                            assert forall|k: int| 0 <= k < j implies result@.contains(
                                views(needed@)[k],
                            ) || waiting(queue@, head as int, #[trigger] views(needed@)[k]) by {
                                if waiting(queued, head as int, views(needed@)[k]) {
                                    let i = choose|i: int|
                                        head <= i < queued.len() && (#[trigger] queued[i])@
                                            == views(needed@)[k];
                                    assert(queue@[i] == queued[i]);
                                }
                            }
                        }
                    }
                    j += 1;
                }
                proof {
                    assert forall|b: Seq<char>| #[trigger] edge(name@, b) implies result@.contains(b)
                        || waiting(queue@, head as int, b) by {
                        assert(depends_on(*packages@[at as int], b));
                        let k = choose|k: int|
                            0 <= k < views(needed@).len() && views(needed@)[k] == b;
                        assert(result@.contains(views(needed@)[k]) || waiting(
                            queue@,
                            head as int,
                            views(needed@)[k],
                        ));
                    }
                }
            },
            None => {},
        }
        proof {
            assert(queue@.take(waited.len() as int) =~= waited);
            lemma_waiting_grows(waited, queue@, from, before, name@);
            assert forall|a: Seq<char>, b: Seq<char>| result@.contains(a) && #[trigger] edge(
                a,
                b,
            ) implies result@.contains(b) || waiting(queue@, head as int, b) by {
                if a != name@ {
                    assert(before.contains(a));
                }
            }
            assert forall|t: Set<Seq<char>>|
                roots@.subset_of(t) && #[trigger] closed_under(edge, t) implies result@.subset_of(t)
                && forall|i: int| 0 <= i < queue@.len() ==> t.contains((#[trigger] queue@[i])@) by {
                assert(t.contains(waited[from]@));
                assert forall|i: int| 0 <= i < queue@.len() implies t.contains(
                    (#[trigger] queue@[i])@,
                ) by {
                    if i < waited.len() {
                        assert(queue@.take(waited.len() as int)[i] == queue@[i]);
                        assert(t.contains(waited[i]@));
                    } else {
                        assert(edge(name@, queue@[i]@));
                    }
                }
            }
        }
    }
    proof {
        assert forall|a: Seq<char>, b: Seq<char>| result@.contains(a) && #[trigger] edge(
            a,
            b,
        ) implies result@.contains(b) by {
            assert(!waiting(queue@, head as int, b));
        }
        assert(roots@.subset_of(result@)) by {
            assert forall|x: Seq<char>| roots@.contains(x) implies result@.contains(x) by {
                assert(!waiting(queue@, head as int, x));
            }
        }
    }
    result
}

/// The name is in the queue at or behind `head`.
pub open spec fn waiting(queue: Seq<String>, head: int, name: Seq<char>) -> bool {
    exists|i: int| head <= i < queue.len() && (#[trigger] queue[i])@ == name
}

proof fn lemma_waiting_step(queue: Seq<String>, head: int, found: Set<Seq<char>>)
    requires
        0 <= head < queue.len(),
        found.contains(queue[head]@),
    ensures
        forall|x: Seq<char>|
            #![trigger waiting(queue, head + 1, x)]
            waiting(queue, head, x) ==> found.contains(x) || waiting(queue, head + 1, x),
{
    assert forall|x: Seq<char>|
        #![trigger waiting(queue, head + 1, x)]
        waiting(queue, head, x) implies found.contains(x) || waiting(queue, head + 1, x) by {
        let i = choose|i: int| head <= i < queue.len() && (#[trigger] queue[i])@ == x;
        if i > head {
            assert(queue[i]@ == x);
        }
    }
}

proof fn lemma_waiting_grows(
    before: Seq<String>,
    after: Seq<String>,
    head: int,
    found: Set<Seq<char>>,
    name: Seq<char>,
)
    requires
        0 <= head < before.len() <= after.len(),
        after.take(before.len() as int) == before,
        before[head]@ == name,
    ensures
        forall|x: Seq<char>|
            #![trigger waiting(after, head + 1, x)]
            found.contains(x) || waiting(before, head, x) ==> found.insert(name).contains(x)
                || waiting(after, head + 1, x),
{
    assert forall|x: Seq<char>|
        #![trigger waiting(after, head + 1, x)]
        found.contains(x) || waiting(before, head, x) implies found.insert(name).contains(x)
        || waiting(after, head + 1, x) by {
        if !found.contains(x) {
            let i = choose|i: int| head <= i < before.len() && (#[trigger] before[i])@ == x;
            assert(after.take(before.len() as int)[i] == after[i]);
            if i > head {
                assert(after[i]@ == x);
            }
        }
    }
}


/// The packages that a resolution can choose from.
#[derive(Debug)]
pub struct Pool {
    pub packages: Vec<Package>,
}

impl Pool {
    /// A pool without packages.
    pub fn new() -> (r: Pool)
        ensures
            r.packages@.len() == 0,
    {
        Pool { packages: Vec::new() }
    }

    /// Adds a package.
    pub fn add_package(&mut self, package: Package)
        ensures
            final(self).packages@ == old(self).packages@.push(package),
    {
        self.packages.push(package);
    }
}

/// A package of that name in the pool requires the other, and the other may be
/// updated along with it: it is no root requirement of its own, or was named, or
/// root requirements are updated too.
pub open spec fn update_edge(
    pool: Seq<Package>,
    explicit: Set<Seq<char>>,
    roots: Set<Seq<char>>,
    with_roots: bool,
) -> Edge {
    |a: Seq<char>, b: Seq<char>|
        (with_roots || !roots.contains(b) || explicit.contains(b)) && exists|i: int|
            0 <= i < pool.len() && canonical((#[trigger] pool[i]).name@) == a && depends_on(
                pool[i],
                b,
            )
}

/// The names that the packages of a pool require.
pub open spec fn all_required(pool: Seq<Package>) -> Seq<Seq<char>>
    decreases pool.len(),
{
    if pool.len() == 0 {
        Seq::empty()
    } else {
        all_required(pool.drop_last()) + links(pool.last().require).map_values(
            |e: (Seq<char>, Seq<char>)| canonical(e.0),
        )
    }
}

proof fn lemma_all_required(pool: Seq<Package>, i: int, b: Seq<char>)
    requires
        0 <= i < pool.len(),
        depends_on(pool[i], b),
    ensures
        all_required(pool).contains(b),
    decreases pool.len(),
{
    let head = all_required(pool.drop_last());
    let tail = links(pool.last().require).map_values(|e: (Seq<char>, Seq<char>)| canonical(e.0));
    if i == pool.len() - 1 {
        let all = links(pool[i].require);
        let j = choose|j: int|
            0 <= j < all.len() && !platform((#[trigger] all[j]).0) && canonical(all[j].0) == b;
        assert(tail[j] == b);
        assert((head + tail)[head.len() + j] == b);
    } else {
        assert(pool.drop_last()[i] == pool[i]);
        lemma_all_required(pool.drop_last(), i, b);
        let k = choose|k: int| 0 <= k < head.len() && head[k] == b;
        assert((head + tail)[k] == b);
    }
}

/// The packages that may be updated where `explicit` is to be updated with its
/// dependencies: those, and what they lead to.
pub fn expand_update_allowlist(
    pool: &Pool,
    explicit: &NameSet,
    root_requirements: &NameSet,
    include_root_requirements: bool,
) -> (r: NameSet)
    ensures
        is_closure(
            update_edge(
                pool.packages@,
                explicit@,
                root_requirements@,
                include_root_requirements,
            ),
            explicit@,
            r@,
        ),
{
    let ghost edge = update_edge(
        pool.packages@,
        explicit@,
        root_requirements@,
        include_root_requirements,
    );
    let ghost universe = all_required(pool.packages@);
    let mut queue = explicit.to_names();
    let mut allowlist = NameSet::from_names(queue.as_slice());
    assert(allowlist@ == explicit@);
    let mut head: usize = 0;
    proof {
        assert forall|i: int| 0 <= i < queue@.len() implies explicit@.contains(
            (#[trigger] queue@[i])@,
        ) by {
            assert(views(queue@)[i] == queue@[i]@);
            assert(views(queue@).to_set().contains(views(queue@)[i]));
        }
        assert forall|a: Seq<char>, b: Seq<char>|
            allowlist@.contains(a) && !waiting(queue@, 0, a) && #[trigger] edge(
                a,
                b,
            ) implies allowlist@.contains(b) by {
            assert(views(queue@).to_set().contains(a));
            let i = choose|i: int| 0 <= i < views(queue@).len() && views(queue@)[i] == a;
            assert(queue@[i]@ == a);
        }
    }
    while head < queue.len()
        invariant
            head <= queue.len(),
            edge == update_edge(
                pool.packages@,
                explicit@,
                root_requirements@,
                include_root_requirements,
            ),
            universe == all_required(pool.packages@),
            explicit@.subset_of(allowlist@),
            forall|i: int| 0 <= i < queue@.len() ==> allowlist@.contains((#[trigger] queue@[i])@),
            forall|t: Set<Seq<char>>|
                explicit@.subset_of(t) && #[trigger] closed_under(edge, t) ==> allowlist@.subset_of(
                    t,
                ),
            forall|a: Seq<char>, b: Seq<char>|
                allowlist@.contains(a) && !waiting(queue@, head as int, a) && #[trigger] edge(a, b)
                    ==> allowlist@.contains(b),
        decreases missing(universe, allowlist@), queue.len() - head,
    {
        let name = queue[head].clone();
        let ghost start = allowlist@;
        let ghost waited = queue@;
        let ghost from = head as int;
        head += 1;
        let mut i: usize = 0;
        while i < pool.packages.len()
            invariant
                i <= pool.packages.len(),
                head <= queue.len(),
                head == from + 1,
                from < waited.len() <= queue@.len(),
                waited[from]@ == name@,
                queue@.take(waited.len() as int) == waited,
                edge == update_edge(
                    pool.packages@,
                    explicit@,
                    root_requirements@,
                    include_root_requirements,
                ),
                universe == all_required(pool.packages@),
                explicit@.subset_of(allowlist@),
                start.contains(name@),
                start.subset_of(allowlist@),
                forall|x: Seq<char>|
                    #[trigger] allowlist@.contains(x) ==> start.contains(x) || waiting(
                        queue@,
                        head as int,
                        x,
                    ),
                forall|k: int|
                    0 <= k < queue@.len() ==> allowlist@.contains((#[trigger] queue@[k])@),
                forall|t: Set<Seq<char>>|
                    explicit@.subset_of(t) && #[trigger] closed_under(edge, t)
                        ==> allowlist@.subset_of(t),
                forall|k: int, b: Seq<char>|
                    0 <= k < i && canonical((#[trigger] pool.packages@[k]).name@) == name@
                        && #[trigger] depends_on(pool.packages@[k], b) && edge(name@, b)
                        ==> allowlist@.contains(b),
                missing(universe, allowlist@) <= missing(universe, start),
                missing(universe, allowlist@) == missing(universe, start) ==> queue@.len()
                    == waited.len(),
            decreases pool.packages.len() - i,
        {
            let have = canonical_package_name(pool.packages[i].name.as_str());
            if str_equal(have.as_str(), name.as_str()) {
                let needed = required_names(&pool.packages[i]);
                let mut j: usize = 0;
                while j < needed.len()
                    invariant
                        i < pool.packages.len(),
                        j <= needed.len(),
                        canonical(pool.packages@[i as int].name@) == name@,
                        head <= queue.len(),
                        head == from + 1,
                        from < waited.len() <= queue@.len(),
                        queue@.take(waited.len() as int) == waited,
                        edge == update_edge(
                            pool.packages@,
                            explicit@,
                            root_requirements@,
                            include_root_requirements,
                        ),
                        universe == all_required(pool.packages@),
                        explicit@.subset_of(allowlist@),
                        start.contains(name@),
                        start.subset_of(allowlist@),
                        forall|x: Seq<char>|
                            #[trigger] allowlist@.contains(x) ==> start.contains(x) || waiting(
                                queue@,
                                head as int,
                                x,
                            ),
                        forall|k: int|
                            0 <= k < queue@.len() ==> allowlist@.contains((#[trigger] queue@[k])@),
                        forall|t: Set<Seq<char>>|
                            explicit@.subset_of(t) && #[trigger] closed_under(edge, t)
                                ==> allowlist@.subset_of(t),
                        forall|k: int, b: Seq<char>|
                            0 <= k < i && canonical((#[trigger] pool.packages@[k]).name@) == name@
                                && #[trigger] depends_on(pool.packages@[k], b) && edge(name@, b)
                                ==> allowlist@.contains(b),
                        forall|b: Seq<char>|
                            views(needed@).contains(b) <==> depends_on(
                                pool.packages@[i as int],
                                b,
                            ),
                        forall|k: int|
                            0 <= k < j && edge(name@, views(needed@)[k]) ==> allowlist@.contains(
                                #[trigger] views(needed@)[k],
                            ),
                        missing(universe, allowlist@) <= missing(universe, start),
                        missing(universe, allowlist@) == missing(universe, start) ==> queue@.len()
                            == waited.len(),
                    decreases needed.len() - j,
                {
                    let one = needed[j].as_str();
                    let ghost b = one@;
                    let ghost allowed = allowlist@;
                    let ghost queued = queue@;
                    proof {
                        assert(views(needed@)[j as int] == b);
                        assert(views(needed@).contains(b));
                    }
                    let skipped = !include_root_requirements && root_requirements.contains(one)
                        && !explicit.contains(one);
                    assert(skipped ==> !edge(name@, b));
                    if !skipped {
                        proof {
                            assert(canonical(pool.packages@[i as int].name@) == name@
                                && depends_on(pool.packages@[i as int], b));
                            assert(edge(name@, b));
                            lemma_all_required(pool.packages@, i as int, b);
                            lemma_missing_shrinks(universe, allowed, b);
                        }
                        if allowlist.insert(one) {
                            queue.push(needed[j].clone());
                            proof {
                                assert(queue@.take(waited.len() as int) =~= waited);
                                assert(queue@[queued.len() as int]@ == b);
                                assert forall|x: Seq<char>| #[trigger]
                                    allowlist@.contains(x) implies start.contains(x) || waiting(
                                    queue@,
                                    head as int,
                                    x,
                                ) by {
                                    if x != b {
                                        assert(allowed.contains(x));
                                        if !start.contains(x) {
                                            let k = choose|k: int|
                                                head <= k < queued.len() && (#[trigger] queued[k])@
                                                    == x;
                                            assert(queue@[k]@ == x);
                                        }
                                    }
                                }
                                assert forall|k: int| 0 <= k < queue@.len() implies allowlist@.contains(
                                    (#[trigger] queue@[k])@,
                                ) by {
                                    if k < queued.len() {
                                        assert(queue@[k] == queued[k]);
                                    }
                                }
                            }
                        } else {
                            assert(allowlist@ =~= allowed);
                        }
                        proof {
                            assert forall|t: Set<Seq<char>>|
                                explicit@.subset_of(t) && #[trigger] closed_under(
                                    edge,
                                    t,
                                ) implies allowlist@.subset_of(t) by {
                                assert(allowed.subset_of(t));
                                assert(t.contains(name@));
                                assert(t.contains(b));
                            }
                        }
                    }
                    j += 1;
                }
                proof {
                    assert forall|k: int, b: Seq<char>|
                        0 <= k < i + 1 && canonical((#[trigger] pool.packages@[k]).name@) == name@
                            && #[trigger] depends_on(pool.packages@[k], b) && edge(
                            name@,
                            b,
                        ) implies allowlist@.contains(b) by {
                        if k == i {
                            assert(views(needed@).contains(b));
                            let z = choose|z: int|
                                0 <= z < views(needed@).len() && views(needed@)[z] == b;
                            assert(allowlist@.contains(views(needed@)[z]));
                        }
                    }
                }
            }
            i += 1;
        }
        proof {
            assert forall|a: Seq<char>, b: Seq<char>|
                allowlist@.contains(a) && !waiting(queue@, head as int, a) && #[trigger] edge(
                    a,
                    b,
                ) implies allowlist@.contains(b) by {
                assert(start.contains(a));
                if a == name@ {
                    let k = choose|k: int|
                        0 <= k < pool.packages@.len() && canonical(
                            (#[trigger] pool.packages@[k]).name@,
                        ) == a && depends_on(pool.packages@[k], b);
                    assert(depends_on(pool.packages@[k], b));
                } else {
                    assert(!waiting(waited, from, a)) by {
                        if waiting(waited, from, a) {
                            let k = choose|k: int|
                                from <= k < waited.len() && (#[trigger] waited[k])@ == a;
                            assert(queue@.take(waited.len() as int)[k] == queue@[k]);
                            assert(queue@[k]@ == a);
                        }
                    }
                    assert(start.contains(b));
                }
            }
        }
    }
    proof {
        assert forall|a: Seq<char>, b: Seq<char>| allowlist@.contains(a) && #[trigger] edge(
            a,
            b,
        ) implies allowlist@.contains(b) by {
            assert(!waiting(queue@, head as int, a));
        }
    }
    allowlist
}

/// With root requirements updated too, at least as much may be updated.
pub proof fn law_all_dependencies_allow_more(
    pool: Seq<Package>,
    explicit: Set<Seq<char>>,
    roots: Set<Seq<char>>,
    some: Set<Seq<char>>,
    all: Set<Seq<char>>,
)
    requires
        is_closure(update_edge(pool, explicit, roots, false), explicit, some),
        is_closure(update_edge(pool, explicit, roots, true), explicit, all),
    ensures
        some.subset_of(all),
{
    let narrow = update_edge(pool, explicit, roots, false);
    let wide = update_edge(pool, explicit, roots, true);
    assert(closed_under(narrow, all)) by {
        assert forall|a: Seq<char>, b: Seq<char>| all.contains(a) && #[trigger] narrow(
            a,
            b,
        ) implies all.contains(b) by {
            assert(wide(a, b));
        }
    }
}

/// Without it, no root requirement is updated that was not named.
pub proof fn law_root_requirements_stay(
    pool: Seq<Package>,
    explicit: Set<Seq<char>>,
    roots: Set<Seq<char>>,
    some: Set<Seq<char>>,
)
    requires
        is_closure(update_edge(pool, explicit, roots, false), explicit, some),
    ensures
        forall|x: Seq<char>|
            #[trigger] some.contains(x) && roots.contains(x) ==> explicit.contains(x),
{
    let edge = update_edge(pool, explicit, roots, false);
    let kept = some.filter(|x: Seq<char>| !roots.contains(x) || explicit.contains(x));
    assert(explicit.subset_of(kept));
    assert(closed_under(edge, kept));
    assert(some.subset_of(kept));
}

} // verus!
