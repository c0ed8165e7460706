//! What holds of `require` and `remove`: every package that is named is added or taken away, and
//! no other.
use vstd::prelude::*;

use crate::commands::add::{
    is_plain, law_removed_package_is_gone, names_single, recommended, spec_parts, wanted_of,
    were_there, with_added, without_names,
};
use crate::installer::loading_laws::{constraint_on, lemma_with_link, single};
use crate::links::{has_link, lemma_link_at, link_at, without_link, Pairs};
use crate::package::Package;
use crate::text::{after, before, find_from, joined, lemma_find_from, pieces};

verus! {

/// The package is required with the constraint.
pub open spec fn requires_as(l: Pairs, name: Seq<char>, constraint: Seq<char>) -> bool {
    exists|i: int| 0 <= i < l.len() && #[trigger] l[i] == (name, constraint)
}

proof fn lemma_added(l: Pairs, packages: Seq<(String, String)>, n: int, name: Seq<char>)
    requires
        0 <= n <= packages.len(),
    ensures
        has_link(with_added(l, packages, n), name) <==> has_link(l, name) || exists|k: int|
            0 <= k < n && (#[trigger] packages[k]).0@ == name,
        forall|k: int|
            0 <= k < n && (#[trigger] packages[k]).0@ == name && (forall|j: int|
                k < j < n ==> (#[trigger] packages[j]).0@ != name) ==> constraint_on(
                with_added(l, packages, n),
                name,
            ) == packages[k].1@,
        has_link(l, name) && (forall|k: int| 0 <= k < n ==> (#[trigger] packages[k]).0@ != name)
            ==> constraint_on(with_added(l, packages, n), name) == constraint_on(l, name),
        single(l) ==> single(with_added(l, packages, n)),
    decreases n,
{
    if n > 0 {
        lemma_added(l, packages, n - 1, name);
        let t = with_added(l, packages, n - 1);
        lemma_with_link(t, packages[n - 1].0@, packages[n - 1].1@, name);
        lemma_with_link(t, packages[n - 1].0@, packages[n - 1].1@, packages[n - 1].0@);
        assert forall|k: int|
            0 <= k < n && (#[trigger] packages[k]).0@ == name && (forall|j: int|
                k < j < n ==> (#[trigger] packages[j]).0@ != name) implies constraint_on(
            with_added(l, packages, n),
            name,
        ) == packages[k].1@ by {
            if k < n - 1 {
                assert(packages[n - 1].0@ != name);
                assert(has_link(t, name));
            }
        }
        if has_link(l, name) && (forall|k: int|
            0 <= k < n ==> (#[trigger] packages[k]).0@ != name) {
            assert(packages[n - 1].0@ != name);
        }
    }
}

/// Every package that is added is required, with the constraint that was given for it last; what
/// was required before stays, with its constraint, unless it is added anew; and nothing else is
/// required.
pub proof fn law_every_added_package_is_required(
    l: Pairs,
    packages: Seq<(String, String)>,
    name: Seq<char>,
)
    ensures
        has_link(with_added(l, packages, packages.len() as int), name) <==> has_link(l, name)
            || exists|k: int| 0 <= k < packages.len() && (#[trigger] packages[k]).0@ == name,
        forall|k: int|
            0 <= k < packages.len() && (#[trigger] packages[k]).0@ == name && (forall|j: int|
                k < j < packages.len() ==> (#[trigger] packages[j]).0@ != name) ==> constraint_on(
                with_added(l, packages, packages.len() as int),
                name,
            ) == packages[k].1@,
        has_link(l, name) && (forall|k: int|
            0 <= k < packages.len() ==> (#[trigger] packages[k]).0@ != name) ==> constraint_on(
            with_added(l, packages, packages.len() as int),
            name,
        ) == constraint_on(l, name),
{
    lemma_added(l, packages, packages.len() as int, name);
}

proof fn lemma_without(l: Pairs, name: Seq<char>, other: Seq<char>, constraint: Seq<char>)
    requires
        names_single(l),
    ensures
        names_single(without_link(l, name)),
        other != name ==> requires_as(without_link(l, name), other, constraint) == requires_as(
            l,
            other,
            constraint,
        ),
{
    lemma_link_at(l, name);
    let r = without_link(l, name);
    if has_link(l, name) {
        let at = link_at(l, name);
        assert forall|i: int, j: int| 0 <= i < j < r.len() implies (#[trigger] r[i]).0 != (
        #[trigger] r[j]).0 by {
            let a = if i < at {
                i
            } else {
                i + 1
            };
            let b = if j < at {
                j
            } else {
                j + 1
            };
            assert(l[a].0 != l[b].0);
        }
        if other != name && requires_as(l, other, constraint) {
            let i = choose|i: int| 0 <= i < l.len() && #[trigger] l[i] == (other, constraint);
            if i < at {
                assert(r[i] == (other, constraint));
            } else {
                assert(r[i - 1] == (other, constraint));
            }
        }
        if other != name && requires_as(r, other, constraint) {
            let i = choose|i: int| 0 <= i < r.len() && #[trigger] r[i] == (other, constraint);
            if i < at {
                assert(l[i] == (other, constraint));
            } else {
                assert(l[i + 1] == (other, constraint));
            }
        }
    }
}

proof fn lemma_removed(
    l: Pairs,
    names: Seq<Seq<char>>,
    n: int,
    name: Seq<char>,
    constraint: Seq<char>,
)
    requires
        names_single(l),
        0 <= n <= names.len(),
    ensures
        names_single(without_names(l, names, n)),
        has_link(without_names(l, names, n), name) <==> has_link(l, name) && forall|k: int|
            0 <= k < n ==> #[trigger] names[k] != name,
        (forall|k: int| 0 <= k < n ==> #[trigger] names[k] != name) ==> requires_as(
            without_names(l, names, n),
            name,
            constraint,
        ) == requires_as(l, name, constraint),
    decreases n,
{
    if n > 0 {
        lemma_removed(l, names, n - 1, name, constraint);
        let t = without_names(l, names, n - 1);
        law_removed_package_is_gone(t, names[n - 1], name);
        lemma_without(t, names[n - 1], name, constraint);
    }
}

/// Every package that is taken away is required no longer, and every other stays required as it
/// was.
pub proof fn law_every_removed_package_is_gone(
    l: Pairs,
    names: Seq<Seq<char>>,
    name: Seq<char>,
    constraint: Seq<char>,
)
    requires
        names_single(l),
    ensures
        names.contains(name) ==> !has_link(without_names(l, names, names.len() as int), name),
        !names.contains(name) ==> requires_as(
            without_names(l, names, names.len() as int),
            name,
            constraint,
        ) == requires_as(l, name, constraint),
{
    lemma_removed(l, names, names.len() as int, name, constraint);
    if names.contains(name) {
        let k = choose|k: int| 0 <= k < names.len() && names[k] == name;
        assert(names[k] == name);
    } else {
        assert forall|k: int| 0 <= k < names.len() implies #[trigger] names[k] != name by {
            assert(names.contains(names[k]));
        }
    }
}

proof fn lemma_there(require: Pairs, dev: Pairs, names: Seq<Seq<char>>, dev_only: bool, n: int, k: int)
    requires
        names_single(require),
        names_single(dev),
        0 <= k < n <= names.len(),
        forall|j: int| 0 <= j < k ==> #[trigger] names[j] != names[k],
    ensures
        were_there(require, dev, names, dev_only, n).len() == n,
        were_there(require, dev, names, dev_only, n)[k] == ((!dev_only && has_link(
            require,
            names[k],
        )) || has_link(dev, names[k])),
    decreases n,
{
    if k < n - 1 {
        lemma_there(require, dev, names, dev_only, n - 1, k);
    } else {
        lemma_there_count(require, dev, names, dev_only, n - 1);
        lemma_removed(require, names, n - 1, names[k], ""@);
        lemma_removed(dev, names, n - 1, names[k], ""@);
    }
}

proof fn lemma_there_count(require: Pairs, dev: Pairs, names: Seq<Seq<char>>, dev_only: bool, n: int)
    requires
        0 <= n <= names.len(),
    ensures
        were_there(require, dev, names, dev_only, n).len() == n,
    decreases n,
{
    if n > 0 {
        lemma_there_count(require, dev, names, dev_only, n - 1);
    }
}

/// A package that is to be taken away is said to have been required exactly where it was: for
/// production or for development, or for development where only those are meant.
pub proof fn law_removal_tells_what_was_there(
    require: Pairs,
    dev: Pairs,
    names: Seq<Seq<char>>,
    dev_only: bool,
    k: int,
)
    requires
        names_single(require),
        names_single(dev),
        0 <= k < names.len(),
        forall|j: int| 0 <= j < k ==> #[trigger] names[j] != names[k],
    ensures
        were_there(require, dev, names, dev_only, names.len() as int).len() == names.len(),
        were_there(require, dev, names, dev_only, names.len() as int)[k] == ((!dev_only && has_link(
            require,
            names[k],
        )) || has_link(dev, names[k])),
{
    lemma_there(require, dev, names, dev_only, names.len() as int, k);
}

/// A package is named with its constraint behind the first colon, which both together give back.
pub proof fn law_constraint_follows_the_colon(name: Seq<char>, constraint: Seq<char>)
    requires
        !name.contains(':'),
    ensures
        spec_parts(name + ":"@ + constraint) == (name, Some(constraint)),
        spec_parts(name) == (name, None::<Seq<char>>),
        name.len() > 0 && constraint.len() > 0 ==> wanted_of(name + ":"@ + constraint) == Ok::<
            (Seq<char>, Option<Seq<char>>),
            Seq<char>,
        >((name, Some(constraint))),
        name.len() > 0 ==> wanted_of(name) == Ok::<(Seq<char>, Option<Seq<char>>), Seq<char>>(
            (name, None),
        ),
        name.len() == 0 ==> wanted_of(name) is Err,
        constraint.len() == 0 ==> wanted_of(name + ":"@ + constraint) is Err,
{
    reveal_strlit(":");
    let s = name + ":"@ + constraint;
    lemma_find_from(s, ':', 0);
    lemma_find_from(name, ':', 0);
    let i = find_from(s, ':', 0);
    let n = name.len() as int;
    assert(s[n] == ':');
    assert(forall|k: int| 0 <= k < n ==> #[trigger] s[k] == name[k] && name.contains(name[k]));
    assert(i == n);
    assert(before(s, i) =~= name);
    assert(after(s, i + 1) =~= constraint);
    if find_from(name, ':', 0) < n {
        assert(name.contains(name[find_from(name, ':', 0)]));
    }
}

/// The constraint that is written for a release allows all later ones that keep to it: the first
/// two numbers of the version, and three where the first is zero. A branch, and what is no plain
/// version, is written as it is.
pub proof fn law_recommended_constraint_allows_later_releases(
    p: Package,
    normal: Seq<char>,
    stability: Option<Seq<char>>,
)
    ensures
        ({
            let parts = pieces(normal, '.');
            let r = recommended(p, normal, stability);
            let tail = match stability {
                Some(s) => "@"@ + s,
                None => Seq::empty(),
            };
            &&& p.follows_branch() || !is_plain(parts) ==> r == p.shown_version()
            &&& !p.follows_branch() && is_plain(parts) && parts[0] != "0"@ ==> r == "^"@ + parts[0]
                + "."@ + parts[1] + tail
            &&& !p.follows_branch() && is_plain(parts) && parts[0] == "0"@ ==> r == "^"@ + parts[0]
                + "."@ + parts[1] + "."@ + parts[2] + tail
        }),
{
    let parts = pieces(normal, '.');
    if !p.follows_branch() && is_plain(parts) {
        let two = parts.take(2);
        let three = parts.take(3);
        assert(two.drop_last() =~= seq![parts[0]]);
        assert(three.drop_last() =~= two);
        assert(joined(two.drop_last(), "."@) == parts[0]);
        assert(joined(two, "."@) =~= parts[0] + "."@ + parts[1]);
        assert(joined(three, "."@) =~= parts[0] + "."@ + parts[1] + "."@ + parts[2]);
        let r = recommended(p, normal, stability);
        let tail = match stability {
            Some(s) => "@"@ + s,
            None => Seq::empty(),
        };
        if parts[0] != "0"@ {
            assert(r =~= "^"@ + parts[0] + "."@ + parts[1] + tail);
        } else {
            assert(r =~= "^"@ + parts[0] + "."@ + parts[1] + "."@ + parts[2] + tail);
        }
    }
}

} // verus!
