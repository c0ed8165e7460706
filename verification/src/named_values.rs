//! JSON values by name: an `IndexMap`, which keeps the order in which its entries came.
use vstd::prelude::*;

use indexmap::IndexMap;

use crate::json::{copy, entries_view, keys_differ, Json};

verus! {

/// The entries of a map from names to values, in order.
pub uninterp spec fn named_values(m: IndexMap<String, Json>) -> Seq<
    (Seq<char>, crate::json::JsonView),
>;

/// `IndexMap::len`: the number of entries.
#[verifier::external_body]
pub(crate) fn value_count(m: &IndexMap<String, Json>) -> (r: usize)
    ensures
        r == named_values(*m).len(),
{
    m.len()
}

/// `IndexMap::get_index`: the entry at a position. No other entry has the same name.
#[verifier::external_body]
pub(crate) fn value_entry(m: &IndexMap<String, Json>, i: usize) -> (r: Option<(&str, &Json)>)
    ensures
        r.is_some() == (i < named_values(*m).len()),
        r matches Some(e) ==> (e.0@, e.1@) == named_values(*m)[i as int],
        r matches Some(e) ==> forall|j: int|
            0 <= j < named_values(*m).len() && j != i ==> (#[trigger] named_values(*m)[j]).0
                != e.0@,
{
    m.get_index(i).map(|(k, v)| (k.as_str(), v))
}

/// `IndexMap::from_iter`: the entries in their order, where no name stands twice.
#[verifier::external_body]
pub(crate) fn value_map(v: Vec<(String, Json)>) -> (r: IndexMap<String, Json>)
    ensures
        keys_differ(entries_view(v@)) ==> named_values(r) == entries_view(v@),
{
    v.into_iter().collect()
}

/// The entries as a list. No name stands twice in it.
pub fn entries_of(m: &IndexMap<String, Json>) -> (r: Vec<(String, Json)>)
    ensures
        entries_view(r@) == named_values(*m),
        keys_differ(named_values(*m)),
{
    let n: usize = value_count(m);
    let ghost all = named_values(*m);
    let mut out: Vec<(String, Json)> = Vec::new();
    let mut i: usize = 0;
    assert(entries_view(out@) =~= all.take(0));
    while i < n
        invariant
            i <= n,
            n == all.len(),
            all == named_values(*m),
            entries_view(out@) == all.take(i as int),
            forall|k: int, j: int|
                0 <= k < i && 0 <= j < all.len() && j != k ==> (#[trigger] all[j]).0 != (
                #[trigger] all[k]).0,
        decreases n - i,
    {
        let ghost before = out@;
        if let Some((name, value)) = value_entry(m, i) {
            out.push((name.to_owned(), copy(value)));
            assert(entries_view(out@) =~= entries_view(before).push((name@, value@)));
            assert(all.take(i + 1) =~= all.take(i as int).push(all[i as int]));
        }
        i += 1;
    }
    assert(all.take(i as int) =~= all);
    out
}

/// A map with the same entries in the same order.
pub fn copy_values(m: &IndexMap<String, Json>) -> (r: IndexMap<String, Json>)
    ensures
        named_values(r) == named_values(*m),
{
    value_map(entries_of(m))
}

} // verus!
