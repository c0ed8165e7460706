//! What holds of reads, writes, removals and merges taken together.
use vstd::prelude::*;

use crate::json::{
    at_path, empty_object, has_key, key_at, keys_differ, lemma_key_at, lemma_key_at_unique,
    lemma_with_entry, lemma_without_key, merged, merged_entries, value_of, with_entry, with_path,
    without_key, without_path, Entries, JsonView,
};

verus! {

/// Two paths part ways: neither leads through the end of the other.
pub open spec fn diverge(p: Seq<Seq<char>>, q: Seq<Seq<char>>) -> bool
    decreases p.len(),
{
    p.len() > 0 && q.len() > 0 && (p[0] != q[0] || diverge(p.drop_first(), q.drop_first()))
}

/// A value written at the end of a path is what is read there.
pub proof fn law_read_after_write(v: JsonView, path: Seq<Seq<char>>, x: JsonView)
    ensures
        at_path(with_path(v, path, x), path) == Some(x),
    decreases path.len(),
{
    if path.len() > 0 {
        let o = v.entries();
        let child = match value_of(o, path[0]) {
            Some(c) => c,
            None => empty_object(),
        };
        let next = with_path(child, path.drop_first(), x);
        lemma_with_entry(o, path[0], next, path[0]);
        law_read_after_write(child, path.drop_first(), x);
    }
}

/// A write leaves what stands at the end of every path that parts from its own.
pub proof fn law_write_keeps_the_rest(
    v: JsonView,
    path: Seq<Seq<char>>,
    x: JsonView,
    other: Seq<Seq<char>>,
)
    requires
        diverge(path, other),
    ensures
        at_path(with_path(v, path, x), other) == at_path(v, other),
    decreases path.len(),
{
    let o = v.entries();
    let child = match value_of(o, path[0]) {
        Some(c) => c,
        None => empty_object(),
    };
    let next = with_path(child, path.drop_first(), x);
    lemma_with_entry(o, path[0], next, other[0]);
    lemma_key_at(o, other[0]);
    if path[0] == other[0] {
        law_write_keeps_the_rest(child, path.drop_first(), x, other.drop_first());
        if value_of(o, path[0]) is None {
            let rest = other.drop_first();
            assert(rest.len() > 0);
            assert(at_path(empty_object(), rest) is None);
        }
    }
}

/// A second write at the same path replaces the first.
pub proof fn law_write_twice(v: JsonView, path: Seq<Seq<char>>, x: JsonView, y: JsonView)
    ensures
        with_path(with_path(v, path, x), path, y) == with_path(v, path, y),
    decreases path.len(),
{
    if path.len() > 0 {
        let o = v.entries();
        let child = match value_of(o, path[0]) {
            Some(c) => c,
            None => empty_object(),
        };
        let rest = path.drop_first();
        let next = with_path(child, rest, x);
        lemma_with_entry(o, path[0], next, path[0]);
        law_write_twice(child, rest, x, y);
        let p = with_entry(o, path[0], next);
        lemma_key_at(o, path[0]);
        lemma_key_at(p, path[0]);
        assert forall|i: int| 0 <= i < key_at(o, path[0]) implies (#[trigger] p[i]).0
            != path[0] by {
            assert(o[i].0 != path[0]);
        }
        lemma_key_at_unique(p, path[0], key_at(o, path[0]));
        assert(with_entry(p, path[0], with_path(child, rest, y)) =~= with_entry(
            o,
            path[0],
            with_path(child, rest, y),
        ));
    }
}

/// A write keeps every key of every object single.
pub proof fn law_write_keeps_keys_single(v: JsonView, path: Seq<Seq<char>>, x: JsonView)
    requires
        v.wf(),
        x.wf(),
    ensures
        with_path(v, path, x).wf(),
    decreases path.len(),
{
    if path.len() > 0 {
        let o = v.entries();
        lemma_key_at(o, path[0]);
        let child = match value_of(o, path[0]) {
            Some(c) => c,
            None => empty_object(),
        };
        assert(child.wf()) by {
            if value_of(o, path[0]) is Some {
                assert(o[key_at(o, path[0])].1.wf());
            }
        }
        let next = with_path(child, path.drop_first(), x);
        law_write_keeps_keys_single(child, path.drop_first(), x);
        lemma_entry_keeps_wf(o, path[0], next);
    }
}

proof fn lemma_entry_keeps_wf(o: Entries, key: Seq<char>, value: JsonView)
    requires
        JsonView::Object(o).wf(),
        value.wf(),
    ensures
        JsonView::Object(with_entry(o, key, value)).wf(),
{
    lemma_key_at(o, key);
    lemma_with_entry(o, key, value, key);
    let p = with_entry(o, key, value);
    assert forall|i: int| 0 <= i < p.len() implies (#[trigger] p[i]).1.wf() by {
        if i < o.len() {
            assert(o[i].1.wf());
        }
    }
}

/// Nothing is read where something was removed.
pub proof fn law_read_after_remove(v: JsonView, path: Seq<Seq<char>>, prune: bool)
    requires
        v.wf(),
        path.len() > 0,
    ensures
        at_path(without_path(v, path, prune), path) is None,
    decreases path.len(),
{
    if let JsonView::Object(o) = v {
        lemma_key_at(o, path[0]);
        lemma_without_key(o, path[0], path[0]);
        if path.len() > 1 && value_of(o, path[0]) is Some {
            let child = value_of(o, path[0])->0;
            assert(o[key_at(o, path[0])].1.wf());
            let rest = without_path(child, path.drop_first(), prune);
            law_read_after_remove(child, path.drop_first(), prune);
            lemma_with_entry(o, path[0], rest, path[0]);
        }
    }
}

/// A removal leaves what stands at the end of every path that parts from its own.
pub proof fn law_remove_keeps_the_rest(
    v: JsonView,
    path: Seq<Seq<char>>,
    prune: bool,
    other: Seq<Seq<char>>,
)
    requires
        v.wf(),
        diverge(path, other),
    ensures
        at_path(without_path(v, path, prune), other) == at_path(v, other),
    decreases path.len(),
{
    if let JsonView::Object(o) = v {
        lemma_key_at(o, path[0]);
        lemma_without_key(o, path[0], other[0]);
        assert(path.len() == 1 ==> !diverge(path.drop_first(), other.drop_first()));
        if path.len() > 1 && value_of(o, path[0]) is Some {
            let child = value_of(o, path[0])->0;
            assert(o[key_at(o, path[0])].1.wf());
            let rest = without_path(child, path.drop_first(), prune);
            lemma_with_entry(o, path[0], rest, other[0]);
            if path[0] == other[0] {
                assert(diverge(path.drop_first(), other.drop_first()));
                law_remove_keeps_the_rest(child, path.drop_first(), prune, other.drop_first());
                assert(other.drop_first().len() > 0);
                assert(at_path(empty_object(), other.drop_first()) is None);
            }
        }
    }
}

/// Removing where nothing stands changes nothing.
pub proof fn law_remove_nothing(v: JsonView, path: Seq<Seq<char>>)
    requires
        at_path(v, path) is None,
    ensures
        without_path(v, path, false) == v,
    decreases path.len(),
{
    if let JsonView::Object(o) = v {
        lemma_key_at(o, path[0]);
        if path.len() == 1 {
            if value_of(o, path[0]) is Some {
                reveal_with_fuel(at_path, 2);
                assert(path.drop_first().len() == 0);
            }
        } else if value_of(o, path[0]) is Some {
            law_remove_nothing(value_of(o, path[0])->0, path.drop_first());
            assert(with_entry(o, path[0], value_of(o, path[0])->0) =~= o);
        }
    }
}

/// A removal keeps every key of every object single.
pub proof fn law_remove_keeps_keys_single(v: JsonView, path: Seq<Seq<char>>, prune: bool)
    requires
        v.wf(),
    ensures
        without_path(v, path, prune).wf(),
    decreases path.len(),
{
    if let JsonView::Object(o) = v {
        if path.len() > 0 {
            lemma_key_at(o, path[0]);
            lemma_without_key(o, path[0], path[0]);
            let p = without_key(o, path[0]);
            assert forall|i: int| 0 <= i < p.len() implies (#[trigger] p[i]).1.wf() by {
                if key_at(o, path[0]) < o.len() {
                    let k = if i < key_at(o, path[0]) {
                        i
                    } else {
                        i + 1
                    };
                    assert(p[i] == o[k]);
                    assert(o[k].1.wf());
                } else {
                    assert(o[i].1.wf());
                }
            }
            if path.len() > 1 && value_of(o, path[0]) is Some {
                let child = value_of(o, path[0])->0;
                assert(o[key_at(o, path[0])].1.wf());
                law_remove_keeps_keys_single(child, path.drop_first(), prune);
                lemma_entry_keeps_wf(o, path[0], without_path(child, path.drop_first(), prune));
            }
        }
    }
}

// ---------------------------------------------------------------------------
// Merging
// ---------------------------------------------------------------------------
/// What a merge of the first `n` entries holds under a key.
proof fn lemma_merged_lookup(a: Entries, b: Entries, n: int, key: Seq<char>)
    requires
        keys_differ(b),
        0 <= n <= b.len(),
    ensures
        value_of(merged_entries(a, b, n), key) == if key_at(b, key) < n {
            match value_of(a, key) {
                Some(mine) => Some(merged(mine, value_of(b, key)->0)),
                None => value_of(b, key),
            }
        } else {
            value_of(a, key)
        },
        keys_differ(a) ==> keys_differ(merged_entries(a, b, n)),
    decreases n,
{
    lemma_key_at(b, key);
    if n > 0 {
        let so_far = merged_entries(a, b, n - 1);
        let (k, value) = b[n - 1];
        lemma_merged_lookup(a, b, n - 1, key);
        lemma_merged_lookup(a, b, n - 1, k);
        lemma_key_at(b, k);
        assert(key_at(b, k) == n - 1) by {
            assert forall|i: int| 0 <= i < n - 1 implies (#[trigger] b[i]).0 != k by {
                assert(b[i].0 != b[n - 1].0);
            }
            lemma_key_at_unique(b, k, n - 1);
        }
        let next = match value_of(so_far, k) {
            Some(existing) => merged(existing, value),
            None => value,
        };
        lemma_with_entry(so_far, k, next, key);
    }
}

/// A merge of two objects holds, under each key: what only one of them has as it
/// is, and what both have merged.
pub proof fn law_merge_by_key(a: Entries, b: Entries, key: Seq<char>)
    requires
        keys_differ(b),
    ensures
        merged(JsonView::Object(a), JsonView::Object(b)).field(key) == match (
            value_of(a, key),
            value_of(b, key),
        ) {
            (Some(mine), Some(theirs)) => Some(merged(mine, theirs)),
            (Some(mine), None) => Some(mine),
            (None, theirs) => theirs,
        },
{
    lemma_merged_lookup(a, b, b.len() as int, key);
    lemma_key_at(b, key);
}

/// Whatever the target, a merge holds every value of the incoming document that is no object.
pub proof fn law_merge_prefers_incoming(
    target: JsonView,
    incoming: JsonView,
    path: Seq<Seq<char>>,
)
    requires
        incoming.wf(),
        at_path(incoming, path) matches Some(x) && !(x is Object),
    ensures
        at_path(merged(target, incoming), path) == at_path(incoming, path),
    decreases path.len(),
{
    if path.len() > 0 {
        if let (JsonView::Object(a), JsonView::Object(b)) = (target, incoming) {
            law_merge_by_key(a, b, path[0]);
            lemma_key_at(b, path[0]);
            assert(b[key_at(b, path[0])].1.wf());
            if let Some(mine) = value_of(a, path[0]) {
                law_merge_prefers_incoming(mine, value_of(b, path[0])->0, path.drop_first());
            }
        }
    }
}

/// A merge keeps what the target holds under the keys that the incoming object lacks.
pub proof fn law_merge_keeps_other_keys(a: Entries, b: Entries, path: Seq<Seq<char>>)
    requires
        keys_differ(b),
        path.len() > 0,
        !has_key(b, path[0]),
    ensures
        at_path(merged(JsonView::Object(a), JsonView::Object(b)), path) == at_path(
            JsonView::Object(a),
            path,
        ),
{
    law_merge_by_key(a, b, path[0]);
    lemma_key_at(b, path[0]);
}

/// Merging keeps every key of every object single.
pub proof fn law_merge_keeps_keys_single(target: JsonView, incoming: JsonView)
    requires
        target.wf(),
        incoming.wf(),
    ensures
        merged(target, incoming).wf(),
    decreases incoming,
{
    if let (JsonView::Object(a), JsonView::Object(b)) = (target, incoming) {
        lemma_merged_wf(a, b, b.len() as int);
    }
}

proof fn lemma_merged_wf(a: Entries, b: Entries, n: int)
    requires
        JsonView::Object(a).wf(),
        JsonView::Object(b).wf(),
        0 <= n <= b.len(),
    ensures
        JsonView::Object(merged_entries(a, b, n)).wf(),
    decreases b, n,
{
    if n > 0 {
        lemma_merged_wf(a, b, n - 1);
        let so_far = merged_entries(a, b, n - 1);
        let (k, value) = b[n - 1];
        lemma_key_at(so_far, k);
        let next = match value_of(so_far, k) {
            Some(existing) => merged(existing, value),
            None => value,
        };
        if let Some(existing) = value_of(so_far, k) {
            assert(so_far[key_at(so_far, k)].1.wf());
            law_merge_keeps_keys_single(existing, value);
        }
        lemma_entry_keeps_wf(so_far, k, next);
    }
}

/// Merging the same document twice is merging it once.
pub proof fn law_merge_idempotent(target: JsonView, incoming: JsonView)
    requires
        incoming.wf(),
    ensures
        merged(merged(target, incoming), incoming) == merged(target, incoming),
    decreases incoming,
{
    if let JsonView::Object(b) = incoming {
        if let JsonView::Object(a) = target {
            let m = merged_entries(a, b, b.len() as int);
            assert forall|i: int| 0 <= i < b.len() implies value_of(m, #[trigger] b[i].0) matches Some(
                x,
            ) && merged(x, b[i].1) == x by {
                lemma_key_at(b, b[i].0);
                assert(key_at(b, b[i].0) == i) by {
                    assert forall|k: int| 0 <= k < i implies (#[trigger] b[k]).0 != b[i].0 by {}
                    lemma_key_at_unique(b, b[i].0, i);
                }
                law_merge_by_key(a, b, b[i].0);
                assert(b[i].1.wf());
                match value_of(a, b[i].0) {
                    Some(mine) => {
                        law_merge_idempotent(mine, b[i].1);
                    },
                    None => {
                        lemma_merge_with_itself(b[i].1);
                    },
                }
            }
            lemma_merge_settled(m, b, b.len() as int);
        } else {
            lemma_merge_with_itself(incoming);
        }
    }
}

proof fn lemma_merge_with_itself(v: JsonView)
    requires
        v.wf(),
    ensures
        merged(v, v) == v,
    decreases v,
{
    if let JsonView::Object(o) = v {
        assert forall|i: int| 0 <= i < o.len() implies value_of(o, #[trigger] o[i].0) matches Some(
            x,
        ) && merged(x, o[i].1) == x by {
            assert forall|k: int| 0 <= k < i implies (#[trigger] o[k]).0 != o[i].0 by {}
            lemma_key_at_unique(o, o[i].0, i);
            assert(o[i].1.wf());
            lemma_merge_with_itself(o[i].1);
        }
        lemma_merge_settled(o, o, o.len() as int);
    }
}

/// Entries over which `b` changes nothing stay as they are.
proof fn lemma_merge_settled(m: Entries, b: Entries, n: int)
    requires
        0 <= n <= b.len(),
        forall|i: int|
            0 <= i < b.len() ==> (value_of(m, #[trigger] b[i].0) matches Some(x) && merged(
                x,
                b[i].1,
            ) == x),
    ensures
        merged_entries(m, b, n) == m,
    decreases n,
{
    if n > 0 {
        lemma_merge_settled(m, b, n - 1);
        let k = b[n - 1].0;
        lemma_key_at(m, k);
        assert(with_entry(m, k, value_of(m, k)->0) =~= m);
    }
}

} // verus!
