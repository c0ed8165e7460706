//! The repositories of a manifest: as a list, as an object by name, switched off.
use vstd::prelude::*;
use vstd::string::*;

use crate::json::{
    copy, cut, entries_view, find_key, has_key, items_view, lemma_array_view, lemma_items_push,
    lemma_key_at, lemma_object_view, put, same, text, value_of, with_entry, without_key, Entries,
    Json, JsonView,
};

verus! {

/// The entry that switches a repository off.
pub open spec fn disabled(name: Seq<char>) -> JsonView {
    JsonView::Object(seq![(name, JsonView::Bool(false))])
}

/// The repository carries the name, or is the entry that switches the name off.
pub open spec fn is_about(repository: JsonView, name: Seq<char>) -> bool {
    repository.field("name"@) == Some(JsonView::Text(name)) || repository == disabled(name)
}

/// The entries of a repository with its name in front, where it had none.
pub open spec fn named(o: Entries, name: Seq<char>) -> Entries {
    if has_key(o, "name"@) {
        o
    } else {
        seq![("name"@, JsonView::Text(name))] + o
    }
}

/// What an entry of an object of repositories is in a list of them.
pub open spec fn listed_entry(entry: (Seq<char>, JsonView)) -> JsonView {
    match entry.1 {
        JsonView::Object(o) => JsonView::Object(named(o, entry.0)),
        other => JsonView::Object(seq![(entry.0, other)]),
    }
}

/// Repositories as a list.
pub open spec fn listed(repositories: JsonView) -> Seq<JsonView> {
    match repositories {
        JsonView::Array(list) => list,
        JsonView::Object(o) => o.map_values(|e: (Seq<char>, JsonView)| listed_entry(e)),
        _ => Seq::empty(),
    }
}

/// The list without what is about the name.
pub open spec fn without_repository(list: Seq<JsonView>, name: Seq<char>) -> Seq<JsonView> {
    list.filter(|r: JsonView| !is_about(r, name))
}

/// What stands in the list for a repository that was given under a name.
pub open spec fn stored_repository(name: Seq<char>, value: JsonView) -> JsonView {
    match value {
        JsonView::Bool(false) => disabled(name),
        JsonView::Object(o) => JsonView::Object(named(o, name)),
        other => other,
    }
}

/// The list with a repository under a name, in front or at the end.
pub open spec fn list_with_repository(
    list: Seq<JsonView>,
    name: Seq<char>,
    value: JsonView,
    append: bool,
) -> Seq<JsonView> {
    let rest = without_repository(list, name);
    let stored = stored_repository(name, value);
    if append {
        rest.push(stored)
    } else {
        rest.insert(0, stored)
    }
}

/// The manifest with a repository under a name.
pub open spec fn with_repository(
    document: JsonView,
    name: Seq<char>,
    value: JsonView,
    append: bool,
) -> JsonView {
    let o = document.entries();
    let list = match value_of(o, "repositories"@) {
        Some(r) => listed(r),
        None => Seq::empty(),
    };
    JsonView::Object(
        with_entry(
            o,
            "repositories"@,
            JsonView::Array(list_with_repository(list, name, value, append)),
        ),
    )
}

/// The manifest without a repository. A list that is left empty goes too.
pub open spec fn without_named_repository(document: JsonView, name: Seq<char>) -> JsonView {
    match document.field("repositories"@) {
        Some(JsonView::Object(o)) => JsonView::Object(
            with_entry(
                document.entries(),
                "repositories"@,
                JsonView::Object(without_key(o, name)),
            ),
        ),
        Some(JsonView::Array(list)) => {
            let rest = without_repository(list, name);
            if rest.len() == 0 {
                JsonView::Object(without_key(document.entries(), "repositories"@))
            } else {
                JsonView::Object(
                    with_entry(document.entries(), "repositories"@, JsonView::Array(rest)),
                )
            }
        },
        _ => document,
    }
}

/// The entry that switches a repository off.
pub fn disabled_repository(name: &str) -> (r: Json)
    ensures
        r@ == disabled(name@),
{
    broadcast use lemma_object_view;

    let mut out: Vec<(String, Json)> = Vec::new();
    out.push((name.to_owned(), Json::Bool(false)));
    assert(entries_view(out@) =~= disabled(name@)->Object_0);
    Json::Object(out)
}

fn concerns(repository: &Json, name: &str) -> (r: bool)
    ensures
        r == is_about(repository@, name@),
{
    let by_name = match repository.get("name") {
        Some(Json::Text(t)) => crate::text::str_equal(t.as_str(), name),
        _ => false,
    };
    by_name || same(repository, &disabled_repository(name))
}

/// Puts the name in front of the entries of a repository that has none.
fn name_repository(o: Vec<(String, Json)>, name: &str) -> (r: Vec<(String, Json)>)
    ensures
        entries_view(r@) == named(entries_view(o@), name@),
{
    proof {
        lemma_key_at(entries_view(o@), "name"@);
    }
    let mut o = o;
    let ghost before = entries_view(o@);
    if find_key(&o, "name") == o.len() {
        o.insert(0, ("name".to_owned(), text(name)));
        assert(entries_view(o@) =~= named(before, name@));
    }
    o
}

/// Repositories as a list: each entry of an object becomes a repository that carries
/// its name.
pub fn repository_list(repositories: Json) -> (r: Vec<Json>)
    ensures
        items_view(r@) == listed(repositories@),
{
    broadcast use {lemma_array_view, lemma_object_view};

    match repositories {
        Json::Array(list) => list,
        Json::Object(entries) => {
            let ghost o = entries_view(entries@);
            let mut out: Vec<Json> = Vec::new();
            let mut i: usize = 0;
            while i < entries.len()
                invariant
                    i <= entries.len(),
                    o == entries_view(entries@),
                    out.len() == i,
                    forall|k: int|
                        0 <= k < i ==> (#[trigger] out@[k])@ == listed_entry(o[k]),
                decreases entries.len() - i,
            {
                let name = entries[i].0.as_str();
                let one = match &entries[i].1 {
                    Json::Object(e) => {
                        let renamed = name_repository(crate::json::copy_entries(e), name);
                        proof {
                            lemma_object_view(*e);
                            lemma_object_view(renamed);
                        }
                        Json::Object(renamed)
                    },
                    other => {
                        let mut single: Vec<(String, Json)> = Vec::new();
                        single.push((name.to_owned(), copy(other)));
                        proof {
                            lemma_object_view(single);
                            assert(entries_view(single@) =~= seq![(name@, other@)]);
                        }
                        Json::Object(single)
                    },
                };
                assert(one@ == listed_entry(o[i as int]));
                out.push(one);
                i += 1;
            }
            assert(items_view(out@) =~= listed(repositories@));
            out
        },
        _ => {
            let none: Vec<Json> = Vec::new();
            assert(items_view(none@) =~= Seq::empty());
            none
        },
    }
}

/// The list without what is about the name.
fn retain_others(list: &Vec<Json>, name: &str) -> (r: Vec<Json>)
    ensures
        items_view(r@) == without_repository(items_view(list@), name@),
{
    let ghost all = items_view(list@);
    let ghost keep = |r: JsonView| !is_about(r, name@);
    let mut out: Vec<Json> = Vec::new();
    let mut i: usize = 0;
    proof {
        reveal(Seq::filter);
        assert(items_view(out@) =~= all.take(0).filter(keep));
    }
    while i < list.len()
        invariant
            i <= list.len(),
            all == items_view(list@),
            keep == (|r: JsonView| !is_about(r, name@)),
            items_view(out@) == all.take(i as int).filter(keep),
        decreases list.len() - i,
    {
        proof {
            reveal(Seq::filter);
            assert(all.take(i + 1).drop_last() =~= all.take(i as int));
            assert(all.take(i + 1).last() == list@[i as int]@);
        }
        if !concerns(&list[i], name) {
            let one = copy(&list[i]);
            proof {
                lemma_items_push(out@, one);
            }
            out.push(one);
        }
        i += 1;
    }
    assert(all.take(i as int) =~= all);
    out
}

/// Puts a repository under a name, in front of the others or behind them.
pub fn set_repository(document: &mut Json, name: &str, value: Json, append: bool)
    requires
        old(document)@ is Object,
    ensures
        final(document)@ == with_repository(old(document)@, name@, value@, append),
{
    broadcast use {lemma_array_view, lemma_object_view};

    let ghost before = document@;
    let present = match document.get("repositories") {
        Some(r) => repository_list(copy(r)),
        None => Vec::new(),
    };
    let ghost list = match value_of(before.entries(), "repositories"@) {
        Some(r) => listed(r),
        None => Seq::empty(),
    };
    assert(items_view(present@) =~= list);
    let mut rest = retain_others(&present, name);
    let ghost stored = stored_repository(name@, value@);
    let one = match value {
        Json::Bool(b) => if b {
            Json::Bool(b)
        } else {
            disabled_repository(name)
        },
        Json::Object(o) => Json::Object(name_repository(o, name)),
        other => other,
    };
    assert(one@ == stored);
    let ghost kept = items_view(rest@);
    if append {
        rest.push(one);
    } else {
        rest.insert(0, one);
    }
    assert(items_view(rest@) =~= list_with_repository(list, name@, value@, append));
    match document {
        Json::Object(entries) => {
            put(entries, "repositories", Json::Array(rest));
        },
        _ => {},
    }
}

/// Takes a repository out.
pub fn remove_repository(document: &mut Json, name: &str)
    ensures
        final(document)@ == without_named_repository(old(document)@, name@),
{
    broadcast use {lemma_array_view, lemma_object_view};

    let ghost before = document@;
    match document {
        Json::Object(entries) => {
            let ghost o = entries_view(entries@);
            proof {
                lemma_key_at(o, "repositories"@);
            }
            let at: usize = find_key(entries, "repositories");
            if at == entries.len() {
                return;
            }
            let next = match &entries[at].1 {
                Json::Object(inner) => {
                    let mut left = crate::json::copy_entries(inner);
                    cut(&mut left, name);
                    Some(Json::Object(left))
                },
                Json::Array(list) => {
                    let left = retain_others(list, name);
                    assert(items_view(left@).len() == left@.len());
                    if left.len() == 0 {
                        None
                    } else {
                        Some(Json::Array(left))
                    }
                },
                _ => {
                    return;
                },
            };
            assert(o[at as int].1 == entries@[at as int].1@);
            match next {
                Some(j) => {
                    put(entries, "repositories", j);
                },
                None => {
                    cut(entries, "repositories");
                },
            }
        },
        _ => {},
    }
}

/// A repository that was set is in the list, and every other that is about the
/// same name is gone.
pub proof fn law_set_repository_is_listed_once(
    document: JsonView,
    name: Seq<char>,
    value: JsonView,
    append: bool,
)
    requires
        document is Object,
    ensures
        ({
            let list = listed(with_repository(document, name, value, append).field(
                "repositories"@,
            )->0);
            let at = if append {
                list.len() - 1
            } else {
                0
            };
            &&& list.len() > 0
            &&& list[at] == stored_repository(name, value)
            &&& forall|i: int|
                0 <= i < list.len() && i != at ==> !is_about(#[trigger] list[i], name)
        }),
{
    let o = document.entries();
    let list = match value_of(o, "repositories"@) {
        Some(r) => listed(r),
        None => Seq::empty(),
    };
    crate::json::lemma_with_entry(
        o,
        "repositories"@,
        JsonView::Array(list_with_repository(list, name, value, append)),
        "repositories"@,
    );
    lemma_filtered(list, name);
}

proof fn lemma_filtered(list: Seq<JsonView>, name: Seq<char>)
    ensures
        forall|i: int|
            0 <= i < without_repository(list, name).len() ==> !is_about(
                #[trigger] without_repository(list, name)[i],
                name,
            ),
    decreases list.len(),
{
    reveal(Seq::filter);
    if list.len() > 0 {
        lemma_filtered(list.drop_last(), name);
    }
}

/// Nothing about a name is left in a list once the repository was removed.
pub proof fn law_removed_repository_is_gone(document: JsonView, name: Seq<char>)
    requires
        document is Object,
        document.wf(),
        document.field("repositories"@) matches Some(r) && r is Array,
    ensures
        without_named_repository(document, name).field("repositories"@) matches Some(r) ==> r
            is Array && forall|i: int|
            0 <= i < r->Array_0.len() ==> !is_about(#[trigger] r->Array_0[i], name),
{
    let list = document.field("repositories"@)->0->Array_0;
    lemma_filtered(list, name);
    let rest = without_repository(list, name);
    crate::json::lemma_with_entry(
        document.entries(),
        "repositories"@,
        JsonView::Array(rest),
        "repositories"@,
    );
    crate::json::lemma_without_key(document.entries(), "repositories"@, "repositories"@);
}

} // verus!
