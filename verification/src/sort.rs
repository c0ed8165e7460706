//! Lists of named values in the order of their names.
use vstd::prelude::*;
use vstd::string::*;

use crate::links::{
    has_link, lemma_link_at, link_at, link_count, link_entry, links, with_link, Pairs,
};
use crate::text::{lemma_precedes_total, lemma_precedes_transitive, less, precedes, str_equal, views};

use indexmap::IndexMap;

verus! {

/// What a list of pairs holds.
pub open spec fn pairs(v: Seq<(String, String)>) -> Pairs {
    v.map_values(|p: (String, String)| (p.0@, p.1@))
}

pub proof fn lemma_pairs_push(v: Seq<(String, String)>, p: (String, String))
    ensures
        pairs(v.push(p)) == pairs(v).push((p.0@, p.1@)),
{
    assert(pairs(v.push(p)) =~= pairs(v).push((p.0@, p.1@)));
}

/// The pair put behind the last one whose name does not come after its own.
pub open spec fn inserted(s: Pairs, x: (Seq<char>, Seq<char>)) -> Pairs
    decreases s.len(),
{
    if s.len() > 0 && precedes(x.0, s.last().0) {
        inserted(s.drop_last(), x).push(s.last())
    } else {
        s.push(x)
    }
}

/// The pairs in the order of their names. Pairs with the same name keep their order.
pub open spec fn by_name(s: Pairs) -> Pairs
    decreases s.len(),
{
    if s.len() == 0 {
        s
    } else {
        inserted(by_name(s.drop_last()), s.last())
    }
}

/// No name comes before the one in front of it.
pub open spec fn ordered(s: Pairs) -> bool {
    forall|i: int, j: int| 0 <= i < j < s.len() ==> !precedes(#[trigger] s[j].0, #[trigger] s[i].0)
}

proof fn lemma_inserted(s: Pairs, x: (Seq<char>, Seq<char>))
    requires
        ordered(s),
    ensures
        ordered(inserted(s, x)),
        inserted(s, x).to_multiset() =~= s.to_multiset().insert(x),
        inserted(s, x).len() == s.len() + 1,
        forall|i: int|
            0 <= i < inserted(s, x).len() ==> (#[trigger] inserted(s, x)[i]) == x || s.contains(
                inserted(s, x)[i],
            ),
    decreases s.len(),
{
    broadcast use vstd::seq_lib::group_to_multiset_ensures;

    if s.len() > 0 && precedes(x.0, s.last().0) {
        let head = s.drop_last();
        let last = s.last();
        lemma_inserted(head, x);
        let t = inserted(head, x);
        assert(s =~= head.push(last));
        assert forall|i: int| 0 <= i < t.len() implies !precedes(last.0, (#[trigger] t[i]).0) by {
            if t[i] == x {
                lemma_precedes_total(x.0, last.0);
                if precedes(last.0, x.0) {
                    lemma_precedes_transitive(x.0, last.0, x.0);
                }
            } else {
                let k = choose|k: int| 0 <= k < head.len() && head[k] == t[i];
                assert(s[k] == t[i]);
                assert(!precedes(s[s.len() - 1].0, s[k].0));
            }
        }
        assert forall|i: int| 0 <= i < inserted(s, x).len() implies (#[trigger] inserted(s, x)[i])
            == x || s.contains(inserted(s, x)[i]) by {
            if i < t.len() {
                if t[i] != x {
                    let k = choose|k: int| 0 <= k < head.len() && head[k] == t[i];
                    assert(s[k] == t[i]);
                }
            } else {
                assert(s[s.len() - 1] == last);
            }
        }
    } else {
        let t = s.push(x);
        assert forall|i: int, j: int| 0 <= i < j < t.len() implies !precedes(
            #[trigger] t[j].0,
            #[trigger] t[i].0,
        ) by {
            if j == s.len() {
                if precedes(x.0, s[i].0) {
                    let last = s.last();
                    if i < s.len() - 1 {
                        assert(!precedes(s[s.len() - 1].0, s[i].0));
                        lemma_precedes_total(s[i].0, last.0);
                        if s[i].0 != last.0 {
                            lemma_precedes_transitive(x.0, s[i].0, last.0);
                        }
                    }
                }
            }
        }
        assert forall|i: int| 0 <= i < t.len() implies (#[trigger] t[i]) == x || s.contains(
            t[i],
        ) by {
            if i < s.len() {
                assert(s[i] == t[i]);
            }
        }
    }
}

/// Sorting orders the names and keeps every pair.
pub proof fn law_sorting_orders_and_keeps(s: Pairs)
    ensures
        ordered(by_name(s)),
        by_name(s).to_multiset() =~= s.to_multiset(),
        by_name(s).len() == s.len(),
    decreases s.len(),
{
    broadcast use vstd::seq_lib::group_to_multiset_ensures;

    if s.len() > 0 {
        law_sorting_orders_and_keeps(s.drop_last());
        lemma_inserted(by_name(s.drop_last()), s.last());
        assert(s =~= s.drop_last().push(s.last()));
    }
}

/// Puts a pair into a sorted list.
fn insert_sorted(v: &mut Vec<(String, String)>, x: (String, String))
    ensures
        pairs(final(v)@) == inserted(pairs(old(v)@), (x.0@, x.1@)),
{
    let ghost s = pairs(v@);
    let ghost e = (x.0@, x.1@);
    let mut at: usize = v.len();
    assert(s.take(at as int) =~= s);
    assert(inserted(s.take(at as int), e) + s.skip(at as int) =~= inserted(s, e));
    while at > 0 && less(x.0.as_str(), v[at - 1].0.as_str())
        invariant
            at <= v.len(),
            s == pairs(v@),
            e == (x.0@, x.1@),
            inserted(s.take(at as int), e) + s.skip(at as int) == inserted(s, e),
        decreases at,
    {
        proof {
            let head = s.take(at as int);
            assert(head.last() == s[at - 1]);
            assert(head.drop_last() =~= s.take(at - 1));
            assert(inserted(head, e) =~= inserted(s.take(at - 1), e).push(s[at - 1]));
            assert(inserted(s.take(at - 1), e).push(s[at - 1]) + s.skip(at as int) =~= inserted(
                s.take(at - 1),
                e,
            ) + s.skip(at - 1));
        }
        at -= 1;
    }
    proof {
        let head = s.take(at as int);
        if at > 0 {
            assert(head.last() == s[at - 1]);
        }
        assert(inserted(head, e) == head.push(e));
    }
    v.insert(at, x);
    assert(pairs(v@) =~= s.take(at as int).push(e) + s.skip(at as int));
}

/// The pairs in the order of their names.
pub fn sort_by_name(v: Vec<(String, String)>) -> (r: Vec<(String, String)>)
    ensures
        pairs(r@) == by_name(pairs(v@)),
{
    let ghost s = pairs(v@);
    let mut out: Vec<(String, String)> = Vec::new();
    let mut i: usize = 0;
    assert(pairs(out@) =~= by_name(s.take(0)));
    while i < v.len()
        invariant
            i <= v.len(),
            s == pairs(v@),
            pairs(out@) == by_name(s.take(i as int)),
        decreases v.len() - i,
    {
        proof {
            let next = s.take(i + 1);
            assert(next.drop_last() =~= s.take(i as int));
            assert(next.last() == (v@[i as int].0@, v@[i as int].1@));
        }
        insert_sorted(&mut out, (v[i].0.clone(), v[i].1.clone()));
        i += 1;
    }
    assert(s.take(i as int) =~= s);
    out
}

/// The links of a map as a list.
pub fn link_list(m: &IndexMap<String, String>) -> (r: Vec<(String, String)>)
    ensures
        pairs(r@) == links(*m),
{
    let n: usize = link_count(m);
    let mut out: Vec<(String, String)> = Vec::new();
    let mut i: usize = 0;
    while i < n
        invariant
            i <= n == links(*m).len(),
            pairs(out@) == links(*m).take(i as int),
        decreases n - i,
    {
        if let Some((name, value)) = link_entry(m, i) {
            let one = (name.to_owned(), value.to_owned());
            proof {
                lemma_pairs_push(out@, one);
            }
            out.push(one);
        }
        i += 1;
        assert(pairs(out@) =~= links(*m).take(i as int));
    }
    assert(pairs(out@) =~= links(*m));
    out
}

/// The links of a map in the order of their names.
pub fn sorted_links(m: &IndexMap<String, String>) -> (r: Vec<(String, String)>)
    ensures
        pairs(r@) == by_name(links(*m)),
{
    sort_by_name(link_list(m))
}


/// The text put behind the last one that it does not come before.
pub open spec fn text_inserted(s: Seq<Seq<char>>, x: Seq<char>) -> Seq<Seq<char>>
    decreases s.len(),
{
    if s.len() > 0 && precedes(x, s.last()) {
        text_inserted(s.drop_last(), x).push(s.last())
    } else {
        s.push(x)
    }
}

/// The texts in their order.
pub open spec fn texts_sorted(s: Seq<Seq<char>>) -> Seq<Seq<char>>
    decreases s.len(),
{
    if s.len() == 0 {
        s
    } else {
        text_inserted(texts_sorted(s.drop_last()), s.last())
    }
}

proof fn lemma_as_pairs(s: Seq<Seq<char>>)
    ensures
        by_name(s.map_values(|x: Seq<char>| (x, Seq::<char>::empty()))) == texts_sorted(
            s,
        ).map_values(|x: Seq<char>| (x, Seq::<char>::empty())),
    decreases s.len(),
{
    let f = |x: Seq<char>| (x, Seq::<char>::empty());
    if s.len() > 0 {
        lemma_as_pairs(s.drop_last());
        assert(s.map_values(f).drop_last() =~= s.drop_last().map_values(f));
        lemma_inserted_as_pairs(texts_sorted(s.drop_last()), s.last());
    } else {
        assert(s.map_values(f) =~= texts_sorted(s).map_values(f));
    }
}

proof fn lemma_inserted_as_pairs(s: Seq<Seq<char>>, x: Seq<char>)
    ensures
        inserted(
            s.map_values(|y: Seq<char>| (y, Seq::<char>::empty())),
            (x, Seq::<char>::empty()),
        ) == text_inserted(s, x).map_values(|y: Seq<char>| (y, Seq::<char>::empty())),
    decreases s.len(),
{
    let f = |y: Seq<char>| (y, Seq::<char>::empty());
    if s.len() > 0 && precedes(x, s.last()) {
        lemma_inserted_as_pairs(s.drop_last(), x);
        assert(s.map_values(f).drop_last() =~= s.drop_last().map_values(f));
        assert(text_inserted(s, x).map_values(f) =~= text_inserted(s.drop_last(), x).map_values(
            f,
        ).push(f(s.last())));
    } else {
        assert(s.push(x).map_values(f) =~= s.map_values(f).push(f(x)));
    }
}

/// The texts in their order are the same texts.
pub proof fn lemma_texts_sorted_hold(s: Seq<Seq<char>>, t: Seq<char>)
    ensures
        texts_sorted(s).contains(t) <==> s.contains(t),
        texts_sorted(s).len() == s.len(),
    decreases s.len(),
{
    if s.len() > 0 {
        lemma_texts_sorted_hold(s.drop_last(), t);
        lemma_text_inserted_hold(texts_sorted(s.drop_last()), s.last(), t);
        assert(s =~= s.drop_last().push(s.last()));
        crate::holding::lemma_one_more(s.drop_last(), s.last(), t);
    }
}

proof fn lemma_text_inserted_hold(s: Seq<Seq<char>>, x: Seq<char>, t: Seq<char>)
    ensures
        text_inserted(s, x).contains(t) <==> s.contains(t) || t == x,
        text_inserted(s, x).len() == s.len() + 1,
    decreases s.len(),
{
    if s.len() > 0 && precedes(x, s.last()) {
        lemma_text_inserted_hold(s.drop_last(), x, t);
        assert(s =~= s.drop_last().push(s.last()));
        crate::holding::lemma_one_more(s.drop_last(), s.last(), t);
        crate::holding::lemma_one_more(text_inserted(s.drop_last(), x), s.last(), t);
    } else {
        crate::holding::lemma_one_more(s, x, t);
    }
}

/// Sorted texts are in order: none comes before the one in front of it.
pub proof fn law_texts_are_sorted(s: Seq<Seq<char>>)
    ensures
        forall|i: int, j: int|
            0 <= i < j < texts_sorted(s).len() ==> !precedes(
                #[trigger] texts_sorted(s)[j],
                #[trigger] texts_sorted(s)[i],
            ),
        texts_sorted(s).len() == s.len(),
{
    let f = |x: Seq<char>| (x, Seq::<char>::empty());
    let p = s.map_values(f);
    lemma_as_pairs(s);
    law_sorting_orders_and_keeps(p);
    let t = texts_sorted(s);
    assert(by_name(p).len() == t.len());
    assert forall|i: int, j: int| 0 <= i < j < t.len() implies !precedes(
        #[trigger] t[j],
        #[trigger] t[i],
    ) by {
        assert(by_name(p)[i].0 == t[i]);
        assert(by_name(p)[j].0 == t[j]);
    }
}

/// The texts in their order.
pub fn sort_texts(v: &Vec<String>) -> (r: Vec<String>)
    ensures
        views(r@) == texts_sorted(views(v@)),
{
    let ghost s = views(v@);
    let ghost f = |x: Seq<char>| (x, Seq::<char>::empty());
    let mut named: Vec<(String, String)> = Vec::new();
    let mut i: usize = 0;
    while i < v.len()
        invariant
            i <= v.len(),
            s == views(v@),
            f == (|x: Seq<char>| (x, Seq::<char>::empty())),
            pairs(named@) == s.take(i as int).map_values(f),
        decreases v.len() - i,
    {
        let one = (v[i].clone(), String::new());
        proof {
            lemma_pairs_push(named@, one);
        }
        named.push(one);
        i += 1;
        assert(pairs(named@) =~= s.take(i as int).map_values(f));
    }
    assert(s.take(i as int) =~= s);
    proof {
        lemma_as_pairs(s);
    }
    let sorted = sort_by_name(named);
    let mut out: Vec<String> = Vec::new();
    let mut j: usize = 0;
    let ghost t = texts_sorted(s);
    while j < sorted.len()
        invariant
            j <= sorted.len(),
            f == (|x: Seq<char>| (x, Seq::<char>::empty())),
            pairs(sorted@) == t.map_values(f),
            views(out@) == t.take(j as int),
        decreases sorted.len() - j,
    {
        let one = sorted[j].0.clone();
        proof {
            assert(pairs(sorted@).len() == sorted@.len());
            assert(pairs(sorted@)[j as int].0 == one@);
            assert(t.map_values(f)[j as int].0 == t[j as int]);
            crate::text::lemma_views_push(out@, one);
        }
        out.push(one);
        j += 1;
        assert(views(out@) =~= t.take(j as int));
    }
    assert(pairs(sorted@).len() == sorted.len());
    assert(t.take(j as int) =~= t);
    out
}


/// Puts a value under a name: in place where the name is there, at the end where not.
pub fn put_name(v: &mut Vec<(String, String)>, name: String, value: String)
    ensures
        pairs(final(v)@) == with_link(pairs(old(v)@), name@, value@),
{
    let ghost s = pairs(v@);
    let at: usize = find_name(v, name.as_str());
    if at < v.len() {
        v[at] = (name, value);
        assert(pairs(v@) =~= s.update(at as int, (name@, value@)));
    } else {
        proof {
            lemma_pairs_push(v@, (name, value));
        }
        v.push((name, value));
    }
}

/// The position of the first pair with the name.
pub fn find_name(v: &Vec<(String, String)>, name: &str) -> (r: usize)
    ensures
        r == link_at(pairs(v@), name@),
        r <= v.len(),
        has_link(pairs(v@), name@) == (r < v.len()),
{
    let ghost s = pairs(v@);
    let mut i: usize = 0;
    assert(s.skip(0) =~= s);
    while i < v.len() && !str_equal(v[i].0.as_str(), name)
        invariant
            i <= v.len(),
            s == pairs(v@),
            link_at(s, name@) == i + link_at(s.skip(i as int), name@),
        decreases v.len() - i,
    {
        proof {
            assert(s.skip(i as int)[0] == (v@[i as int].0@, v@[i as int].1@));
            assert(s.skip(i as int).drop_first() =~= s.skip(i + 1));
        }
        i += 1;
    }
    proof {
        if i < v.len() {
            assert(s.skip(i as int)[0] == (v@[i as int].0@, v@[i as int].1@));
        }
        lemma_link_at(s, name@);
    }
    i
}

} // verus!
