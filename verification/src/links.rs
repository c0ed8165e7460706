//! The links of a package to others, by name: an `IndexMap`, which keeps the order in
//! which its entries came.
use vstd::prelude::*;

use indexmap::IndexMap;

verus! {

#[verifier::external_type_specification]
#[verifier::external_body]
#[verifier::reject_recursive_types(K)]
#[verifier::reject_recursive_types(V)]
#[verifier::reject_recursive_types(S)]
pub struct ExIndexMap<K, V, S>(indexmap::IndexMap<K, V, S>);

/// Names and what is asked of each, in order.
pub type Pairs = Seq<(Seq<char>, Seq<char>)>;

/// The entries of a map from names to constraints, in order.
pub uninterp spec fn links(m: IndexMap<String, String>) -> Seq<(Seq<char>, Seq<char>)>;

/// The position of the entry with the name; the number of entries where there is none.
pub open spec fn link_at(s: Pairs, name: Seq<char>) -> int
    decreases s.len(),
{
    if s.len() == 0 || s[0].0 == name {
        0
    } else {
        1 + link_at(s.drop_first(), name)
    }
}

/// Whether there is an entry with the name.
pub open spec fn has_link(s: Pairs, name: Seq<char>) -> bool {
    exists|i: int| 0 <= i < s.len() && #[trigger] s[i].0 == name
}

/// The entries with one more: in place where the name is there, at the end where not.
pub open spec fn with_link(s: Pairs, name: Seq<char>, value: Seq<char>) -> Pairs {
    if has_link(s, name) {
        s.update(link_at(s, name), (name, value))
    } else {
        s.push((name, value))
    }
}

/// The entries without a name; the others keep their order.
pub open spec fn without_link(s: Pairs, name: Seq<char>) -> Pairs {
    if has_link(s, name) {
        s.remove(link_at(s, name))
    } else {
        s
    }
}

pub proof fn lemma_link_at(s: Pairs, name: Seq<char>)
    ensures
        0 <= link_at(s, name) <= s.len(),
        has_link(s, name) == (link_at(s, name) < s.len()),
        has_link(s, name) ==> s[link_at(s, name)].0 == name,
        forall|i: int| 0 <= i < link_at(s, name) ==> (#[trigger] s[i]).0 != name,
    decreases s.len(),
{
    if s.len() > 0 && s[0].0 != name {
        let rest = s.drop_first();
        lemma_link_at(rest, name);
        assert forall|i: int| 0 <= i < link_at(s, name) implies (#[trigger] s[i]).0 != name by {
            if i > 0 {
                assert(s[i] == rest[i - 1]);
            }
        }
        if has_link(s, name) {
            let i = choose|i: int| 0 <= i < s.len() && #[trigger] s[i].0 == name;
            assert(rest[i - 1] == s[i]);
        }
        if link_at(rest, name) < rest.len() {
            assert(rest[link_at(rest, name)] == s[link_at(s, name)]);
        }
    }
}

/// `IndexMap::new`: a map without entries.
#[verifier::external_body]
pub(crate) fn no_links() -> (r: IndexMap<String, String>)
    ensures
        links(r) == Seq::<(Seq<char>, Seq<char>)>::empty(),
{
    IndexMap::new()
}

/// `IndexMap::len`: the number of entries.
#[verifier::external_body]
pub(crate) fn link_count(m: &IndexMap<String, String>) -> (r: usize)
    ensures
        r == links(*m).len(),
{
    m.len()
}

/// `IndexMap::get_index`: the entry at a position, as a name and a constraint. No
/// other entry has the same name.
#[verifier::external_body]
pub(crate) fn link_entry(m: &IndexMap<String, String>, i: usize) -> (r: Option<(&str, &str)>)
    ensures
        r.is_some() == (i < links(*m).len()),
        r matches Some(e) ==> (e.0@, e.1@) == links(*m)[i as int],
        r matches Some(e) ==> forall|j: int|
            0 <= j < links(*m).len() && j != i ==> (#[trigger] links(*m)[j]).0 != e.0@,
{
    m.get_index(i).map(|(k, v)| (k.as_str(), v.as_str()))
}

/// `IndexMap::insert`: a name that is there keeps its place and gets the constraint;
/// another goes to the end.
#[verifier::external_body]
pub(crate) fn set_link(m: &mut IndexMap<String, String>, name: String, value: String)
    ensures
        links(*final(m)) == with_link(links(*old(m)), name@, value@),
{
    m.insert(name, value);
}

/// `IndexMap::shift_remove`: the entry with the name goes, the others keep their
/// order; says whether there was one.
#[verifier::external_body]
pub(crate) fn remove_link(m: &mut IndexMap<String, String>, name: &str) -> (r: bool)
    ensures
        links(*final(m)) == without_link(links(*old(m)), name@),
        r == has_link(links(*old(m)), name@),
{
    m.shift_remove(name).is_some()
}

/// `IndexMap::clone`: the same entries in the same order.
#[verifier::external_body]
pub(crate) fn copy_links(m: &IndexMap<String, String>) -> (r: IndexMap<String, String>)
    ensures
        links(r) == links(*m),
{
    m.clone()
}


/// `==` on `IndexMap`: the same names with the same constraints, in any order.
#[verifier::external_body]
pub(crate) fn same_links(a: &IndexMap<String, String>, b: &IndexMap<String, String>) -> (r: bool)
    ensures
        r == (links(*a).to_set() == links(*b).to_set()),
{
    a == b
}

} // verus!
