//! Package names: their canonical form, the names of platform packages, and sets of names.
use vstd::prelude::*;
use vstd::string::*;

use crate::text::{
    ascii_lower, has_prefix, starts_with, str_equal, to_ascii_lowercase, views,
};

verus! {

/// The form in which names are compared: names differ in more than the case of
/// their letters.
pub open spec fn canonical(name: Seq<char>) -> Seq<char> {
    ascii_lower(name)
}

/// The canonical form of a name.
pub fn canonical_package_name(name: &str) -> (r: String)
    ensures
        r@ == canonical(name@),
{
    to_ascii_lowercase(name)
}

/// The name of a platform package: PHP itself, an extension or a library of it, or
/// an interface of the package manager.
pub open spec fn platform(name: Seq<char>) -> bool {
    name == "php"@ || name == "php-64bit"@ || name == "hhvm"@ || has_prefix(name, "ext-"@)
        || has_prefix(name, "lib-"@) || has_prefix(name, "composer-"@)
}

/// Whether the name is that of a platform package.
pub fn is_platform_package(name: &str) -> (r: bool)
    ensures
        r == platform(name@),
{
    str_equal(name, "php") || str_equal(name, "php-64bit") || str_equal(name, "hhvm")
        || starts_with(name, "ext-") || starts_with(name, "lib-") || starts_with(name, "composer-")
}

/// A set of names.
#[derive(Debug)]
pub struct NameSet {
    names: Vec<String>,
}

impl View for NameSet {
    type V = Set<Seq<char>>;

    closed spec fn view(&self) -> Set<Seq<char>> {
        views(self.names@).to_set()
    }
}

impl NameSet {
    /// A set without names.
    pub fn new() -> (r: NameSet)
        ensures
            r@ == Set::<Seq<char>>::empty(),
    {
        let r = NameSet { names: Vec::new() };
        assert(r@ =~= Set::<Seq<char>>::empty()) by {
            assert(views(r.names@).len() == 0);
        }
        r
    }

    /// Whether the name is in the set.
    pub fn contains(&self, name: &str) -> (r: bool)
        ensures
            r == self@.contains(name@),
    {
        let ghost all = views(self.names@);
        let mut i: usize = 0;
        while i < self.names.len()
            invariant
                i <= self.names.len(),
                all == views(self.names@),
                forall|k: int| 0 <= k < i ==> all[k] != name@,
            decreases self.names.len() - i,
        {
            assert(all[i as int] == self.names@[i as int]@);
            if str_equal(self.names[i].as_str(), name) {
                assert(all.contains(name@));
                return true;
            }
            i += 1;
        }
        false
    }

    /// Adds a name; says whether it was new.
    pub fn insert(&mut self, name: &str) -> (r: bool)
        ensures
            final(self)@ == old(self)@.insert(name@),
            r == !old(self)@.contains(name@),
    {
        if self.contains(name) {
            assert(self@.insert(name@) =~= self@);
            return false;
        }
        let ghost before = views(self.names@);
        let one = name.to_owned();
        proof {
            crate::text::lemma_views_push(self.names@, one);
            assert forall|x: Seq<char>| before.push(name@).to_set().contains(x)
                == before.to_set().insert(name@).contains(x) by {
                if before.contains(x) {
                    let i = choose|i: int| 0 <= i < before.len() && before[i] == x;
                    assert(before.push(name@)[i] == x);
                }
                if x == name@ {
                    assert(before.push(name@)[before.len() as int] == x);
                }
            }
            assert(before.push(name@).to_set() =~= before.to_set().insert(name@));
        }
        self.names.push(one);
        true
    }

    /// The set of the names in a list.
    pub fn from_names(names: &[String]) -> (r: NameSet)
        ensures
            r@ == views(names@).to_set(),
    {
        let ghost all = views(names@);
        let mut out = NameSet::new();
        let mut i: usize = 0;
        assert(all.take(0).to_set() =~= Set::<Seq<char>>::empty());
        while i < names.len()
            invariant
                i <= names.len(),
                all == views(names@),
                out@ == all.take(i as int).to_set(),
            decreases names.len() - i,
        {
            out.insert(names[i].as_str());
            proof {
                lemma_take_to_set(all, i as int);
            }
            i += 1;
        }
        assert(all.take(i as int) =~= all);
        out
    }

    /// The names, one after the other.
    pub fn to_names(&self) -> (r: Vec<String>)
        ensures
            views(r@).to_set() == self@,
    {
        let ghost all = views(self.names@);
        let mut out: Vec<String> = Vec::new();
        let mut i: usize = 0;
        while i < self.names.len()
            invariant
                i <= self.names.len(),
                all == views(self.names@),
                views(out@) == all.take(i as int),
            decreases self.names.len() - i,
        {
            let one = self.names[i].clone();
            proof {
                crate::text::lemma_views_push(out@, one);
            }
            out.push(one);
            i += 1;
            assert(views(out@) =~= all.take(i as int));
        }
        assert(views(out@) =~= all);
        out
    }
}

pub proof fn lemma_take_to_set(s: Seq<Seq<char>>, i: int)
    requires
        0 <= i < s.len(),
    ensures
        s.take(i + 1).to_set() == s.take(i).to_set().insert(s[i]),
{
    let a = s.take(i + 1);
    let b = s.take(i);
    assert forall|x: Seq<char>| a.to_set().contains(x) == b.to_set().insert(s[i]).contains(x) by {
        if a.contains(x) {
            let k = choose|k: int| 0 <= k < a.len() && a[k] == x;
            if k < i {
                assert(b[k] == x);
            }
        }
        if b.contains(x) {
            let k = choose|k: int| 0 <= k < b.len() && b[k] == x;
            assert(a[k] == x);
        }
        if x == s[i] {
            assert(a[i] == x);
        }
    }
    assert(a.to_set() =~= b.to_set().insert(s[i]));
}

} // verus!
