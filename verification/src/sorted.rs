//! Lists of named values that are kept in the order of their names, each name once.
use vstd::prelude::*;
use vstd::string::*;

use crate::text::{
    lemma_precedes_total, lemma_precedes_transitive, less, precedes, str_equal,
};

verus! {

/// The names of a list.
pub open spec fn names_of<T>(v: Seq<(String, T)>) -> Seq<Seq<char>> {
    v.map_values(|e: (String, T)| e.0@)
}

/// How many names come before a name, counted from the front.
pub open spec fn place(names: Seq<Seq<char>>, name: Seq<char>) -> int
    decreases names.len(),
{
    if names.len() > 0 && precedes(names[0], name) {
        1 + place(names.drop_first(), name)
    } else {
        0
    }
}

/// The name stands at its place.
pub open spec fn is_present(names: Seq<Seq<char>>, name: Seq<char>) -> bool {
    place(names, name) < names.len() && names[place(names, name)] == name
}

/// Every name comes before the next.
pub open spec fn ascending(names: Seq<Seq<char>>) -> bool {
    forall|i: int, j: int| 0 <= i < j < names.len() ==> precedes(#[trigger] names[i], #[trigger] names[j])
}

/// The names with one more at its place.
pub open spec fn with_name(names: Seq<Seq<char>>, name: Seq<char>) -> Seq<Seq<char>> {
    if is_present(names, name) {
        names
    } else {
        names.insert(place(names, name), name)
    }
}

pub proof fn lemma_place(names: Seq<Seq<char>>, name: Seq<char>)
    ensures
        0 <= place(names, name) <= names.len(),
        forall|i: int| 0 <= i < place(names, name) ==> precedes(#[trigger] names[i], name),
        place(names, name) < names.len() ==> !precedes(names[place(names, name)], name),
    decreases names.len(),
{
    if names.len() > 0 && precedes(names[0], name) {
        let rest = names.drop_first();
        lemma_place(rest, name);
        assert forall|i: int| 0 <= i < place(names, name) implies precedes(
            #[trigger] names[i],
            name,
        ) by {
            if i > 0 {
                assert(names[i] == rest[i - 1]);
            }
        }
        if place(rest, name) < rest.len() {
            assert(rest[place(rest, name)] == names[place(names, name)]);
        }
    }
}

/// In an ascending list a name that is anywhere is at its place, and one more name
/// keeps the list ascending.
pub proof fn lemma_ascending(names: Seq<Seq<char>>, name: Seq<char>)
    requires
        ascending(names),
    ensures
        is_present(names, name) == names.contains(name),
        ascending(with_name(names, name)),
{
    lemma_place(names, name);
    let at = place(names, name);
    if names.contains(name) {
        let i = choose|i: int| 0 <= i < names.len() && names[i] == name;
        lemma_precedes_total(name, name);
        if i < at {
            assert(precedes(names[i], name));
        }
        if at < i {
            assert(precedes(names[at], names[i]));
        }
        assert(i == at);
    }
    if !is_present(names, name) {
        let t = with_name(names, name);
        assert forall|i: int, j: int| 0 <= i < j < t.len() implies precedes(
            #[trigger] t[i],
            #[trigger] t[j],
        ) by {
            if j == at {
                assert(t[i] == names[i]);
            } else if i == at {
                assert(t[j] == names[j - 1]);
                lemma_precedes_total(names[at], name);
                if j - 1 > at {
                    assert(precedes(names[at], names[j - 1]));
                    lemma_precedes_transitive(name, names[at], names[j - 1]);
                }
            } else {
                let a = if i < at {
                    i
                } else {
                    i - 1
                };
                let b = if j < at {
                    j
                } else {
                    j - 1
                };
                assert(t[i] == names[a] && t[j] == names[b]);
            }
        }
    }
}

/// How many names come before a name.
pub fn find_place<T>(v: &Vec<(String, T)>, name: &str) -> (r: usize)
    ensures
        r == place(names_of(v@), name@),
        r <= v.len(),
{
    let ghost names = names_of(v@);
    let mut i: usize = 0;
    assert(names.skip(0) =~= names);
    while i < v.len() && less(v[i].0.as_str(), name)
        invariant
            i <= v.len(),
            names == names_of(v@),
            place(names, name@) == i + place(names.skip(i as int), name@),
        decreases v.len() - i,
    {
        proof {
            assert(names.skip(i as int)[0] == v@[i as int].0@);
            assert(names.skip(i as int).drop_first() =~= names.skip(i + 1));
        }
        i += 1;
    }
    proof {
        if i < v.len() {
            assert(names.skip(i as int)[0] == v@[i as int].0@);
        }
    }
    i
}

/// Whether the name stands at its place.
pub fn is_at<T>(v: &Vec<(String, T)>, at: usize, name: &str) -> (r: bool)
    requires
        at == place(names_of(v@), name@),
    ensures
        r == is_present(names_of(v@), name@),
{
    at < v.len() && str_equal(v[at].0.as_str(), name)
}

/// Names with their values.
pub open spec fn keyed<T>(v: Seq<(String, T)>) -> Seq<(Seq<char>, T)> {
    v.map_values(|e: (String, T)| (e.0@, e.1))
}

/// The names of a list.
pub open spec fn keys<T>(s: Seq<(Seq<char>, T)>) -> Seq<Seq<char>> {
    s.map_values(|e: (Seq<char>, T)| e.0)
}

/// The list with a value under a name: in place of the one that is there, else at the
/// place of the name.
pub open spec fn placed<T>(s: Seq<(Seq<char>, T)>, name: Seq<char>, value: T) -> Seq<
    (Seq<char>, T),
> {
    let at = place(keys(s), name);
    if is_present(keys(s), name) {
        s.update(at, (name, value))
    } else {
        s.insert(at, (name, value))
    }
}

/// Puts a value under a name.
pub fn put_value<T>(v: &mut Vec<(String, T)>, name: &str, value: T)
    ensures
        keyed(final(v)@) == placed(keyed(old(v)@), name@, value),
{
    let ghost before = keyed(v@);
    proof {
        assert(keys(before) =~= names_of(v@));
        lemma_place(names_of(v@), name@);
    }
    let at: usize = find_place(v, name);
    if is_at(v, at, name) {
        v[at] = (name.to_owned(), value);
        assert(keyed(v@) =~= before.update(at as int, (name@, value)));
    } else {
        v.insert(at, (name.to_owned(), value));
        assert(keyed(v@) =~= before.insert(at as int, (name@, value)));
    }
}

/// A list whose names ascend has ascending names with one more value in it, and the value
/// is there under its name.
pub proof fn law_put_values_are_sorted_and_found<T>(
    s: Seq<(Seq<char>, T)>,
    name: Seq<char>,
    value: T,
)
    requires
        ascending(keys(s)),
    ensures
        ascending(keys(placed(s, name, value))),
        placed(s, name, value)[place(keys(s), name)] == (name, value),
        is_present(keys(s), name) ==> placed(s, name, value).len() == s.len(),
        !is_present(keys(s), name) ==> placed(s, name, value).len() == s.len() + 1,
{
    lemma_place(keys(s), name);
    lemma_ascending(keys(s), name);
    let at = place(keys(s), name);
    if is_present(keys(s), name) {
        assert(keys(s)[at] == s[at].0);
        assert(keys(placed(s, name, value)) =~= keys(s));
    } else {
        assert(keys(placed(s, name, value)) =~= keys(s).insert(at, name));
    }
}

proof fn lemma_keys<T>(s: Seq<(Seq<char>, T)>)
    ensures
        keys(s).len() == s.len(),
        forall|i: int| 0 <= i < s.len() ==> #[trigger] keys(s)[i] == s[i].0,
{
}

/// Lists with ascending names that hold the same are the same.
pub proof fn lemma_ascending_is_unique<T>(a: Seq<(Seq<char>, T)>, b: Seq<(Seq<char>, T)>)
    requires
        ascending(keys(a)),
        ascending(keys(b)),
        a.to_set() == b.to_set(),
    ensures
        a == b,
    decreases a.len(),
{
    lemma_keys(a);
    lemma_keys(b);
    if a.len() == 0 {
        if b.len() > 0 {
            assert(b.to_set().contains(b[0]));
            assert(a.to_set().contains(b[0]));
        }
        assert(a =~= b);
    } else {
        assert(a.to_set().contains(a[0]));
        assert(b.to_set().contains(a[0]));
        let j = choose|j: int| 0 <= j < b.len() && b[j] == a[0];
        assert(b.to_set().contains(b[0]));
        assert(a.to_set().contains(b[0]));
        let i = choose|i: int| 0 <= i < a.len() && a[i] == b[0];
        assert(a[0] == b[0]) by {
            if i > 0 {
                assert(precedes(keys(a)[0], keys(a)[i]));
                if j > 0 {
                    assert(precedes(keys(b)[0], keys(b)[j]));
                    lemma_precedes_transitive(a[0].0, b[0].0, a[0].0);
                    lemma_precedes_total(a[0].0, a[0].0);
                }
            }
        }
        let x = a.drop_first();
        let y = b.drop_first();
        lemma_keys(x);
        lemma_keys(y);
        assert(keys(x) =~= keys(a).drop_first());
        assert(keys(y) =~= keys(b).drop_first());
        assert forall|e: (Seq<char>, T)| x.to_set().contains(e) == y.to_set().contains(e) by {
            lemma_tail(a, b, e);
            lemma_tail(b, a, e);
        }
        assert(x.to_set() =~= y.to_set());
        lemma_ascending_is_unique(x, y);
        assert(a =~= seq![a[0]] + x);
        assert(b =~= seq![b[0]] + y);
    }
}

proof fn lemma_tail<T>(a: Seq<(Seq<char>, T)>, b: Seq<(Seq<char>, T)>, e: (Seq<char>, T))
    requires
        a.len() > 0,
        b.len() > 0,
        a[0] == b[0],
        ascending(keys(a)),
        a.to_set() == b.to_set(),
    ensures
        a.drop_first().to_set().contains(e) ==> b.drop_first().to_set().contains(e),
{
    lemma_keys(a);
    lemma_keys(b);
    let x = a.drop_first();
    if x.to_set().contains(e) {
        let k = choose|k: int| 0 <= k < x.len() && x[k] == e;
        assert(a[k + 1] == e);
        assert(a.to_set().contains(e));
        assert(b.to_set().contains(e));
        let m = choose|m: int| 0 <= m < b.len() && b[m] == e;
        if m == 0 {
            assert(precedes(keys(a)[0], keys(a)[k + 1]));
            lemma_precedes_total(a[0].0, a[0].0);
        }
        assert(b.drop_first()[m - 1] == e);
    }
}

/// With one more value a list holds that value, and what it held under other names.
pub proof fn lemma_placed_set<T>(s: Seq<(Seq<char>, T)>, name: Seq<char>, value: T)
    requires
        ascending(keys(s)),
    ensures
        forall|e: (Seq<char>, T)| #[trigger]
            placed(s, name, value).to_set().contains(e) == (e == (name, value) || (e.0 != name
                && s.to_set().contains(e))),
{
    lemma_keys(s);
    lemma_place(keys(s), name);
    lemma_ascending(keys(s), name);
    let at = place(keys(s), name);
    let r = placed(s, name, value);
    assert forall|e: (Seq<char>, T)| #[trigger] r.to_set().contains(e) == (e == (name, value) || (
    e.0 != name && s.to_set().contains(e))) by {
        if r.to_set().contains(e) {
            let k = choose|k: int| 0 <= k < r.len() && r[k] == e;
            if k != at {
                let o = if is_present(keys(s), name) || k < at {
                    k
                } else {
                    k - 1
                };
                assert(s[o] == e);
                assert(s.to_set().contains(e));
                if e.0 == name {
                    assert(keys(s)[o] == name);
                    assert(keys(s).contains(name));
                    assert(is_present(keys(s), name));
                    lemma_precedes_total(name, name);
                    if o < at {
                        assert(precedes(keys(s)[o], keys(s)[at]));
                    } else {
                        assert(precedes(keys(s)[at], keys(s)[o]));
                    }
                }
            } else {
                assert(r[at] == (name, value));
            }
        }
        if e == (name, value) {
            assert(r[at] == e);
        }
        if e.0 != name && s.to_set().contains(e) {
            let o = choose|o: int| 0 <= o < s.len() && s[o] == e;
            if is_present(keys(s), name) {
                assert(keys(s)[at] == s[at].0);
                assert(r[o] == e);
            } else if o < at {
                assert(r[o] == e);
            } else {
                assert(r[o + 1] == e);
            }
        }
    }
}

/// The order in which values under different names come makes no difference.
pub proof fn law_order_of_arrival_does_not_matter<T>(
    s: Seq<(Seq<char>, T)>,
    a: Seq<char>,
    x: T,
    b: Seq<char>,
    y: T,
)
    requires
        ascending(keys(s)),
        a != b,
    ensures
        placed(placed(s, a, x), b, y) == placed(placed(s, b, y), a, x),
{
    law_put_values_are_sorted_and_found(s, a, x);
    law_put_values_are_sorted_and_found(s, b, y);
    law_put_values_are_sorted_and_found(placed(s, a, x), b, y);
    law_put_values_are_sorted_and_found(placed(s, b, y), a, x);
    lemma_placed_set(s, a, x);
    lemma_placed_set(s, b, y);
    lemma_placed_set(placed(s, a, x), b, y);
    lemma_placed_set(placed(s, b, y), a, x);
    let p = placed(placed(s, a, x), b, y);
    let q = placed(placed(s, b, y), a, x);
    assert forall|e: (Seq<char>, T)| p.to_set().contains(e) == q.to_set().contains(e) by {}
    assert(p.to_set() =~= q.to_set());
    lemma_ascending_is_unique(p, q);
}

} // verus!
