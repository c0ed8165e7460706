//! JSON values: objects that keep the order of their keys, lookup and change
//! along a path of keys, and the merges that configuration files need.
use vstd::prelude::*;
use vstd::slice::slice_subrange;
use vstd::string::*;

use crate::text::{str_equal, str_views};

verus! {

/// A number as it stands in a JSON text.
#[derive(Debug, Clone)]
pub enum Number {
    /// A whole number from zero on.
    Unsigned(u64),
    /// A whole number below zero.
    Negative(i64),
    /// Any other number, by the digits it is printed with.
    Fraction(String),
}

/// A JSON value. The entries of an object stand in the order they were added.
#[derive(Debug)]
pub enum Json {
    Null,
    Bool(bool),
    Number(Number),
    Text(String),
    Array(Vec<Json>),
    Object(Vec<(String, Json)>),
}

/// What a number is.
pub enum NumberView {
    Unsigned(u64),
    Negative(i64),
    Fraction(Seq<char>),
}

/// The entries of an object: keys and values in order.
pub type Entries = Seq<(Seq<char>, JsonView)>;

/// What a JSON value is.
pub enum JsonView {
    Null,
    Bool(bool),
    Number(NumberView),
    Text(Seq<char>),
    Array(Seq<JsonView>),
    Object(Seq<(Seq<char>, JsonView)>),
}

impl View for Number {
    type V = NumberView;

    open spec fn view(&self) -> NumberView {
        match *self {
            Number::Unsigned(n) => NumberView::Unsigned(n),
            Number::Negative(n) => NumberView::Negative(n),
            Number::Fraction(t) => NumberView::Fraction(t@),
        }
    }
}

impl View for Json {
    type V = JsonView;

    open spec fn view(&self) -> JsonView {
        json_view(*self)
    }
}

pub open spec fn json_view(j: Json) -> JsonView
    decreases j,
{
    match j {
        Json::Null => JsonView::Null,
        Json::Bool(b) => JsonView::Bool(b),
        Json::Number(n) => JsonView::Number(n@),
        Json::Text(t) => JsonView::Text(t@),
        Json::Array(items) => JsonView::Array(
            Seq::new(
                items@.len(),
                |i: int|
                    if 0 <= i < items@.len() {
                        json_view(items@[i])
                    } else {
                        JsonView::Null
                    },
            ),
        ),
        Json::Object(entries) => JsonView::Object(
            Seq::new(
                entries@.len(),
                |i: int|
                    if 0 <= i < entries@.len() {
                        (entries@[i].0@, json_view(entries@[i].1))
                    } else {
                        (Seq::empty(), JsonView::Null)
                    },
            ),
        ),
    }
}

/// What a list of values holds.
pub open spec fn items_view(items: Seq<Json>) -> Seq<JsonView> {
    items.map_values(|j: Json| j@)
}

/// What the entries of an object hold.
pub open spec fn entries_view(entries: Seq<(String, Json)>) -> Entries {
    entries.map_values(|e: (String, Json)| (e.0@, e.1@))
}

pub broadcast proof fn lemma_array_view(items: Vec<Json>)
    ensures
        #[trigger] json_view(Json::Array(items)) == JsonView::Array(items_view(items@)),
{
    assert(json_view(Json::Array(items))->Array_0 =~= items_view(items@));
}

pub broadcast proof fn lemma_object_view(entries: Vec<(String, Json)>)
    ensures
        #[trigger] json_view(Json::Object(entries)) == JsonView::Object(entries_view(entries@)),
{
    assert(json_view(Json::Object(entries))->Object_0 =~= entries_view(entries@));
}

pub broadcast proof fn lemma_items_push(v: Seq<Json>, j: Json)
    ensures
        #[trigger] items_view(v.push(j)) == items_view(v).push(j@),
{
    assert(items_view(v.push(j)) =~= items_view(v).push(j@));
}

pub broadcast proof fn lemma_entries_push(v: Seq<(String, Json)>, e: (String, Json))
    ensures
        #[trigger] entries_view(v.push(e)) == entries_view(v).push((e.0@, e.1@)),
{
    assert(entries_view(v.push(e)) =~= entries_view(v).push((e.0@, e.1@)));
}

// ---------------------------------------------------------------------------
// Objects
// ---------------------------------------------------------------------------
/// The position of the first entry with the key; the number of entries where there is none.
pub open spec fn key_at(o: Entries, key: Seq<char>) -> int
    decreases o.len(),
{
    if o.len() == 0 {
        0
    } else if o[0].0 == key {
        0
    } else {
        1 + key_at(o.drop_first(), key)
    }
}

/// Whether the object has the key.
pub open spec fn has_key(o: Entries, key: Seq<char>) -> bool {
    exists|i: int| 0 <= i < o.len() && #[trigger] o[i].0 == key
}

/// The value under a key.
pub open spec fn value_of(o: Entries, key: Seq<char>) -> Option<JsonView> {
    if key_at(o, key) < o.len() {
        Some(o[key_at(o, key)].1)
    } else {
        None
    }
}

/// The object with `value` under `key`: in place where it had the key, at the end where not.
pub open spec fn with_entry(o: Entries, key: Seq<char>, value: JsonView) -> Entries {
    if key_at(o, key) < o.len() {
        o.update(key_at(o, key), (key, value))
    } else {
        o.push((key, value))
    }
}

/// The object without `key`; the others keep their order.
pub open spec fn without_key(o: Entries, key: Seq<char>) -> Entries {
    if key_at(o, key) < o.len() {
        o.remove(key_at(o, key))
    } else {
        o
    }
}

/// No key stands twice.
pub open spec fn keys_differ(o: Entries) -> bool {
    forall|i: int, j: int| 0 <= i < j < o.len() ==> #[trigger] o[i].0 != #[trigger] o[j].0
}

impl JsonView {
    /// The value under `key`, where this is an object that has it.
    pub open spec fn field(self, key: Seq<char>) -> Option<JsonView> {
        match self {
            JsonView::Object(o) => value_of(o, key),
            _ => None,
        }
    }

    /// The entries where this is an object, none where it is not.
    pub open spec fn entries(self) -> Entries {
        match self {
            JsonView::Object(o) => o,
            _ => Seq::empty(),
        }
    }

    /// The text, where this is one.
    pub open spec fn text(self) -> Option<Seq<char>> {
        match self {
            JsonView::Text(t) => Some(t),
            _ => None,
        }
    }

    /// No object in this value holds a key twice.
    pub open spec fn wf(self) -> bool
        decreases self,
    {
        match self {
            JsonView::Array(items) => forall|i: int|
                0 <= i < items.len() ==> (#[trigger] items[i]).wf(),
            JsonView::Object(o) => keys_differ(o) && forall|i: int|
                0 <= i < o.len() ==> (#[trigger] o[i]).1.wf(),
            _ => true,
        }
    }
}

/// An object without entries.
pub open spec fn empty_object() -> JsonView {
    JsonView::Object(Seq::empty())
}

pub proof fn lemma_key_at(o: Entries, key: Seq<char>)
    ensures
        0 <= key_at(o, key) <= o.len(),
        key_at(o, key) < o.len() ==> o[key_at(o, key)].0 == key,
        forall|i: int| 0 <= i < key_at(o, key) ==> (#[trigger] o[i]).0 != key,
        has_key(o, key) == (key_at(o, key) < o.len()),
    decreases o.len(),
{
    if o.len() > 0 && o[0].0 != key {
        let rest = o.drop_first();
        lemma_key_at(rest, key);
        assert forall|i: int| 0 <= i < key_at(o, key) implies (#[trigger] o[i]).0 != key by {
            if i > 0 {
                assert(o[i] == rest[i - 1]);
            }
        }
        if key_at(rest, key) < rest.len() {
            assert(rest[key_at(rest, key)] == o[key_at(o, key)]);
        }
        if has_key(o, key) {
            let i = choose|i: int| 0 <= i < o.len() && #[trigger] o[i].0 == key;
            assert(rest[i - 1] == o[i]);
        }
    }
}

pub proof fn lemma_key_at_unique(o: Entries, key: Seq<char>, at: int)
    requires
        0 <= at <= o.len(),
        forall|i: int| 0 <= i < at ==> (#[trigger] o[i]).0 != key,
        at < o.len() ==> o[at].0 == key,
    ensures
        key_at(o, key) == at,
{
    lemma_key_at(o, key);
    if key_at(o, key) < at {
        assert(o[key_at(o, key)].0 != key);
    }
    if at < key_at(o, key) {
        assert(o[at].0 != key);
    }
}

/// What an object holds under a key after another entry was written.
pub proof fn lemma_with_entry(o: Entries, key: Seq<char>, value: JsonView, other: Seq<char>)
    ensures
        value_of(with_entry(o, key, value), other) == if other == key {
            Some(value)
        } else {
            value_of(o, other)
        },
        keys_differ(o) ==> keys_differ(with_entry(o, key, value)),
{
    let p = with_entry(o, key, value);
    lemma_key_at(o, key);
    lemma_key_at(o, other);
    let k = key_at(o, key);
    if other == key {
        assert forall|i: int| 0 <= i < k implies (#[trigger] p[i]).0 != key by {
            assert(o[i].0 != key);
        }
        lemma_key_at_unique(p, other, k);
    } else {
        let m = key_at(o, other);
        if m < o.len() {
            assert forall|i: int| 0 <= i < m implies (#[trigger] p[i]).0 != other by {
                assert(o[i].0 != other);
            }
            lemma_key_at_unique(p, other, m);
        } else {
            assert forall|i: int| 0 <= i < p.len() implies (#[trigger] p[i]).0 != other by {
                if i < o.len() {
                    assert(o[i].0 != other);
                }
            }
            lemma_key_at_unique(p, other, p.len() as int);
        }
    }
    if keys_differ(o) {
        assert forall|i: int, j: int| 0 <= i < j < p.len() implies #[trigger] p[i].0
            != #[trigger] p[j].0 by {
            if i < o.len() {
                assert(o[i].0 == p[i].0);
            }
            if j < o.len() {
                assert(o[j].0 == p[j].0);
            }
        }
    }
}

/// What an object holds under a key after an entry was taken out.
pub proof fn lemma_without_key(o: Entries, key: Seq<char>, other: Seq<char>)
    requires
        keys_differ(o),
    ensures
        value_of(without_key(o, key), other) == if other == key {
            None
        } else {
            value_of(o, other)
        },
        keys_differ(without_key(o, key)),
{
    let p = without_key(o, key);
    lemma_key_at(o, key);
    lemma_key_at(o, other);
    let k = key_at(o, key);
    if k < o.len() {
        assert forall|i: int| 0 <= i < p.len() implies #[trigger] p[i] == o[if i < k {
            i
        } else {
            i + 1
        }] by {}
        let m = key_at(o, other);
        if other == key {
            assert forall|i: int| 0 <= i < p.len() implies (#[trigger] p[i]).0 != key by {}
            lemma_key_at_unique(p, key, p.len() as int);
        } else {
            let at = if m < k {
                m
            } else {
                m - 1
            };
            assert forall|i: int| 0 <= i < at implies (#[trigger] p[i]).0 != other by {}
            lemma_key_at_unique(p, other, at);
        }
    }
}

// ---------------------------------------------------------------------------
// Paths
// ---------------------------------------------------------------------------
/// The value at the end of a path of keys.
pub open spec fn at_path(v: JsonView, path: Seq<Seq<char>>) -> Option<JsonView>
    decreases path.len(),
{
    if path.len() == 0 {
        Some(v)
    } else {
        match v.field(path[0]) {
            Some(child) => at_path(child, path.drop_first()),
            None => None,
        }
    }
}

/// `v` with `x` at the end of a path; what stands in the way turns into an object.
pub open spec fn with_path(v: JsonView, path: Seq<Seq<char>>, x: JsonView) -> JsonView
    decreases path.len(),
{
    if path.len() == 0 {
        x
    } else {
        let o = v.entries();
        let child = match value_of(o, path[0]) {
            Some(c) => c,
            None => empty_object(),
        };
        JsonView::Object(with_entry(o, path[0], with_path(child, path.drop_first(), x)))
    }
}

/// `v` without what stands at the end of a path, and without the objects on the
/// way that are left empty where `prune` asks for that.
pub open spec fn without_path(v: JsonView, path: Seq<Seq<char>>, prune: bool) -> JsonView
    decreases path.len(),
{
    match v {
        JsonView::Object(o) => if path.len() == 0 {
            v
        } else if path.len() == 1 {
            JsonView::Object(without_key(o, path[0]))
        } else {
            match value_of(o, path[0]) {
                None => v,
                Some(child) => {
                    let rest = without_path(child, path.drop_first(), prune);
                    if prune && rest == empty_object() {
                        JsonView::Object(without_key(o, path[0]))
                    } else {
                        JsonView::Object(with_entry(o, path[0], rest))
                    }
                },
            }
        },
        _ => v,
    }
}


// ---------------------------------------------------------------------------
// The operations
// ---------------------------------------------------------------------------
/// A copy of a number.
pub fn copy_number(n: &Number) -> (r: Number)
    ensures
        r@ == n@,
{
    match n {
        Number::Unsigned(k) => Number::Unsigned(*k),
        Number::Negative(k) => Number::Negative(*k),
        Number::Fraction(t) => Number::Fraction(t.clone()),
    }
}

/// A copy of a value.
pub fn copy(j: &Json) -> (r: Json)
    ensures
        r@ == j@,
    decreases j,
{
    broadcast use {lemma_array_view, lemma_object_view};

    match j {
        Json::Null => Json::Null,
        Json::Bool(b) => Json::Bool(*b),
        Json::Number(n) => Json::Number(copy_number(n)),
        Json::Text(t) => Json::Text(t.clone()),
        Json::Array(items) => {
            let mut out: Vec<Json> = Vec::new();
            let mut i: usize = 0;
            while i < items.len()
                invariant
                    i <= items.len(),
                    decreases_to!(j => items),
                    items_view(out@) == items_view(items@).take(i as int),
                decreases items.len() - i,
            {
                let one = copy(&items[i]);
                proof {
                    lemma_items_push(out@, one);
                }
                out.push(one);
                i += 1;
                assert(items_view(out@) =~= items_view(items@).take(i as int));
            }
            assert(items_view(out@) =~= items_view(items@));
            Json::Array(out)
        },
        Json::Object(entries) => {
            let out = copy_entries(entries);
            Json::Object(out)
        },
    }
}

/// A copy of the entries of an object.
pub fn copy_entries(entries: &Vec<(String, Json)>) -> (r: Vec<(String, Json)>)
    ensures
        entries_view(r@) == entries_view(entries@),
    decreases entries,
{
    let mut out: Vec<(String, Json)> = Vec::new();
    let mut i: usize = 0;
    while i < entries.len()
        invariant
            i <= entries.len(),
            entries_view(out@) == entries_view(entries@).take(i as int),
        decreases entries.len() - i,
    {
        let one = (entries[i].0.clone(), copy(&entries[i].1));
        proof {
            lemma_entries_push(out@, one);
        }
        out.push(one);
        i += 1;
        assert(entries_view(out@) =~= entries_view(entries@).take(i as int));
    }
    assert(entries_view(out@) =~= entries_view(entries@));
    out
}

/// The position of the first entry with the key.
pub fn find_key(entries: &Vec<(String, Json)>, key: &str) -> (r: usize)
    ensures
        r == key_at(entries_view(entries@), key@),
        r <= entries.len(),
{
    let mut i: usize = 0;
    let ghost o = entries_view(entries@);
    while i < entries.len() && !str_equal(entries[i].0.as_str(), key)
        invariant
            i <= entries.len(),
            o == entries_view(entries@),
            forall|k: int| 0 <= k < i ==> (#[trigger] o[k]).0 != key@,
        decreases entries.len() - i,
    {
        i += 1;
    }
    proof {
        lemma_key_at_unique(o, key@, i as int);
    }
    i
}

/// Adds an entry at the end.
pub fn add_entry(entries: &mut Vec<(String, Json)>, key: &str, value: Json)
    ensures
        entries_view(final(entries)@) == entries_view(old(entries)@).push((key@, value@)),
{
    let one = (key.to_owned(), value);
    proof {
        lemma_entries_push(entries@, one);
    }
    entries.push(one);
}

/// The entries with one more at the end, where there is a value for it.
pub open spec fn with_section(o: Entries, key: Seq<char>, section: Option<JsonView>) -> Entries {
    match section {
        Some(v) => o.push((key, v)),
        None => o,
    }
}

/// Adds an entry where there is a value for it.
pub fn put_section(e: &mut Vec<(String, Json)>, key: &str, section: Option<Json>)
    ensures
        entries_view(final(e)@) == with_section(
            entries_view(old(e)@),
            key@,
            match section {
                Some(j) => Some(j@),
                None => None,
            },
        ),
{
    if let Some(j) = section {
        add_entry(e, key, j);
    }
}

/// Puts a value under a key: in place where the object has the key, at the end where not.
pub fn put(entries: &mut Vec<(String, Json)>, key: &str, value: Json)
    ensures
        entries_view(final(entries)@) == with_entry(entries_view(old(entries)@), key@, value@),
{
    let ghost before = entries_view(entries@);
    let at: usize = find_key(entries, key);
    if at < entries.len() {
        entries[at] = (key.to_owned(), value);
    } else {
        entries.push((key.to_owned(), value));
    }
    assert(entries_view(entries@) =~= with_entry(before, key@, value@));
}

/// Takes the entry with the key out, where there is one, and says whether there was.
pub fn cut(entries: &mut Vec<(String, Json)>, key: &str) -> (r: bool)
    ensures
        entries_view(final(entries)@) == without_key(entries_view(old(entries)@), key@),
        r == has_key(entries_view(old(entries)@), key@),
{
    let ghost before = entries_view(entries@);
    proof {
        lemma_key_at(before, key@);
    }
    let at: usize = find_key(entries, key);
    if at < entries.len() {
        entries.remove(at);
        assert(entries_view(entries@) =~= without_key(before, key@));
        true
    } else {
        false
    }
}

impl Json {
    /// The value under a key, where this is an object that has it.
    pub fn get(&self, key: &str) -> (r: Option<&Json>)
        ensures
            r.is_some() == self@.field(key@).is_some(),
            r matches Some(v) ==> v@ == self@.field(key@)->0 && decreases_to!(*self => *v),
    {
        broadcast use lemma_object_view;

        match self {
            Json::Object(entries) => {
                let at: usize = find_key(entries, key);
                if at < entries.len() {
                    assert(entries_view(entries@)[at as int].1 == entries@[at as int].1@);
                    Some(&entries[at].1)
                } else {
                    None
                }
            },
            _ => None,
        }
    }

    /// Whether this is an object.
    pub fn is_object(&self) -> (r: bool)
        ensures
            r == (self@ is Object),
    {
        matches!(self, Json::Object(_))
    }

    /// Whether this is an array.
    pub fn is_array(&self) -> (r: bool)
        ensures
            r == (self@ is Array),
    {
        matches!(self, Json::Array(_))
    }

    /// The text, where this is one.
    pub fn as_str(&self) -> (r: Option<&str>)
        ensures
            r.is_some() == self@.text().is_some(),
            r matches Some(t) ==> t@ == self@.text()->0,
    {
        match self {
            Json::Text(t) => Some(t.as_str()),
            _ => None,
        }
    }
}

/// The text with the characters of `s`.
pub fn text(s: &str) -> (r: Json)
    ensures
        r@ == JsonView::Text(s@),
{
    Json::Text(s.to_owned())
}

/// The value at the end of a path of keys, where there is one.
pub fn nested<'a>(value: &'a Json, path: &[&str]) -> (r: Option<&'a Json>)
    ensures
        r.is_some() == at_path(value@, str_views(path@)).is_some(),
        r matches Some(v) ==> v@ == at_path(value@, str_views(path@))->0,
{
    let mut current: &'a Json = value;
    let mut i: usize = 0;
    let ghost keys = str_views(path@);
    assert(keys.skip(0) =~= keys);
    while i < path.len()
        invariant
            i <= path.len(),
            keys == str_views(path@),
            at_path(current@, keys.skip(i as int)) == at_path(value@, keys),
        decreases path.len() - i,
    {
        proof {
            assert(keys.skip(i as int)[0] == path@[i as int]@);
            assert(keys.skip(i as int).drop_first() =~= keys.skip(i + 1));
        }
        match current.get(path[i]) {
            Some(child) => {
                current = child;
            },
            None => {
                return None;
            },
        }
        i += 1;
    }
    assert(keys.skip(i as int).len() == 0);
    Some(current)
}

/// Puts a value at the end of a path of keys. A value on the way that is no
/// object turns into one.
pub fn set_nested(root: &mut Json, path: &[&str], value: Json)
    ensures
        final(root)@ == with_path(old(root)@, str_views(path@), value@),
    decreases path.len(),
{
    broadcast use lemma_object_view;

    let ghost keys = str_views(path@);
    if path.len() == 0 {
        *root = value;
        return;
    }
    let ghost before = root@;
    if !root.is_object() {
        *root = Json::Object(Vec::new());
        assert(entries_view(root->Object_0@) =~= Seq::empty());
    }
    let rest = slice_subrange(path, 1, path.len());
    assert(str_views(rest@) =~= keys.drop_first());
    match root {
        Json::Object(entries) => {
            let ghost o = entries_view(entries@);
            proof {
                lemma_key_at(o, keys[0]);
            }
            let at: usize = find_key(entries, path[0]);
            if at < entries.len() {
                let child = &mut entries[at].1;
                set_nested(child, rest, value);
                assert(entries_view(entries@) =~= with_path(before, keys, value@)->Object_0);
            } else {
                let mut child = Json::Object(Vec::new());
                assert(entries_view(child->Object_0@) =~= Seq::empty());
                set_nested(&mut child, rest, value);
                entries.push((path[0].to_owned(), child));
                assert(entries_view(entries@) =~= with_path(before, keys, value@)->Object_0);
            }
        },
        _ => {},
    }
}


/// Takes out what stands at the end of a path of keys and says whether anything
/// stood there; where `prune_empty` asks for it, the objects on the way that are
/// left empty go too.
pub fn remove_nested(root: &mut Json, path: &[&str], prune_empty: bool) -> (r: bool)
    ensures
        final(root)@ == without_path(old(root)@, str_views(path@), prune_empty),
        r == (path.len() > 0 && at_path(old(root)@, str_views(path@)).is_some()),
    decreases path.len(),
{
    broadcast use lemma_object_view;

    let ghost keys = str_views(path@);
    if path.len() == 0 {
        return false;
    }
    let ghost before = root@;
    match root {
        Json::Object(entries) => {
            let ghost o = entries_view(entries@);
            proof {
                lemma_key_at(o, keys[0]);
            }
            if path.len() == 1 {
                let had = cut(entries, path[0]);
                proof {
                    reveal_with_fuel(at_path, 2);
                    assert(keys.drop_first().len() == 0);
                }
                return had;
            }
            let rest = slice_subrange(path, 1, path.len());
            assert(str_views(rest@) =~= keys.drop_first());
            let at: usize = find_key(entries, path[0]);
            if at == entries.len() {
                return false;
            }
            let removed = remove_nested(&mut entries[at].1, rest, prune_empty);
            let ghost child = without_path(o[at as int].1, keys.drop_first(), prune_empty);
            assert(entries_view(entries@) =~= with_entry(o, keys[0], child));
            let empty = match &entries[at].1 {
                Json::Object(left) => {
                    proof {
                        assert(entries_view(left@) =~= Seq::empty() <==> left@.len() == 0);
                    }
                    left.len() == 0
                },
                _ => false,
            };
            assert(entries_view(entries@)[at as int].1 == child);
            assert(empty == (child == empty_object()));
            if prune_empty && empty {
                let ghost now = entries_view(entries@);
                proof {
                    lemma_key_at(now, keys[0]);
                    assert forall|i: int| 0 <= i < at implies (#[trigger] now[i]).0 != keys[0] by {
                        assert(o[i].0 != keys[0]);
                    }
                    lemma_key_at_unique(now, keys[0], at as int);
                }
                cut(entries, path[0]);
                assert(entries_view(entries@) =~= without_key(o, keys[0]));
            }
            removed
        },
        _ => false,
    }
}

/// Whether two values are the same, entry for entry.
pub fn same(a: &Json, b: &Json) -> (r: bool)
    ensures
        r == (a@ == b@),
    decreases a,
{
    broadcast use {lemma_array_view, lemma_object_view};

    match (a, b) {
        (Json::Null, Json::Null) => true,
        (Json::Bool(x), Json::Bool(y)) => *x == *y,
        (Json::Number(x), Json::Number(y)) => same_number(x, y),
        (Json::Text(x), Json::Text(y)) => str_equal(x.as_str(), y.as_str()),
        (Json::Array(x), Json::Array(y)) => {
            if x.len() != y.len() {
                assert(items_view(x@).len() != items_view(y@).len());
                return false;
            }
            let mut i: usize = 0;
            while i < x.len()
                invariant
                    i <= x.len() == y.len(),
                    decreases_to!(a => x),
                    *a == Json::Array(*x),
                    *b == Json::Array(*y),
                    forall|k: int| 0 <= k < i ==> items_view(x@)[k] == items_view(y@)[k],
                decreases x.len() - i,
            {
                if !same(&x[i], &y[i]) {
                    proof {
                        lemma_array_view(*x);
                        lemma_array_view(*y);
                        assert(items_view(x@)[i as int] != items_view(y@)[i as int]);
                    }
                    return false;
                }
                i += 1;
            }
            assert(items_view(x@) =~= items_view(y@));
            true
        },
        (Json::Object(x), Json::Object(y)) => {
            if x.len() != y.len() {
                assert(entries_view(x@).len() != entries_view(y@).len());
                return false;
            }
            let mut i: usize = 0;
            while i < x.len()
                invariant
                    i <= x.len() == y.len(),
                    decreases_to!(a => x),
                    *a == Json::Object(*x),
                    *b == Json::Object(*y),
                    forall|k: int| 0 <= k < i ==> entries_view(x@)[k] == entries_view(y@)[k],
                decreases x.len() - i,
            {
                if !str_equal(x[i].0.as_str(), y[i].0.as_str()) || !same(&x[i].1, &y[i].1) {
                    proof {
                        lemma_object_view(*x);
                        lemma_object_view(*y);
                        assert(entries_view(x@)[i as int] != entries_view(y@)[i as int]);
                    }
                    return false;
                }
                i += 1;
            }
            assert(entries_view(x@) =~= entries_view(y@));
            true
        },
        _ => false,
    }
}

/// Whether two numbers are the same.
pub fn same_number(a: &Number, b: &Number) -> (r: bool)
    ensures
        r == (a@ == b@),
{
    match (a, b) {
        (Number::Unsigned(x), Number::Unsigned(y)) => *x == *y,
        (Number::Negative(x), Number::Negative(y)) => *x == *y,
        (Number::Fraction(x), Number::Fraction(y)) => str_equal(x.as_str(), y.as_str()),
        _ => false,
    }
}

// ---------------------------------------------------------------------------
// Merging
// ---------------------------------------------------------------------------
/// `target` with `incoming` laid over it: objects are merged key by key, anything
/// else is taken from `incoming`.
pub open spec fn merged(target: JsonView, incoming: JsonView) -> JsonView
    decreases incoming,
{
    match (target, incoming) {
        (JsonView::Object(a), JsonView::Object(b)) => JsonView::Object(
            merged_entries(a, b, b.len() as int),
        ),
        _ => incoming,
    }
}

/// The entries `a` with the first `n` entries of `b` laid over them.
pub open spec fn merged_entries(a: Entries, b: Entries, n: int) -> Entries
    decreases b, n,
{
    if n <= 0 || n > b.len() {
        a
    } else {
        let so_far = merged_entries(a, b, n - 1);
        let (key, value) = b[n - 1];
        with_entry(
            so_far,
            key,
            match value_of(so_far, key) {
                Some(existing) => merged(existing, value),
                None => value,
            },
        )
    }
}

/// Lays `incoming` over `target`.
pub fn merge_objects(target: &mut Json, incoming: &Json)
    ensures
        final(target)@ == merged(old(target)@, incoming@),
    decreases incoming,
{
    broadcast use lemma_object_view;

    let ghost before = target@;
    if let (Json::Object(mine), Json::Object(theirs)) = (&mut *target, incoming) {
        let ghost a = entries_view(mine@);
        let ghost b = entries_view(theirs@);
        let mut i: usize = 0;
        while i < theirs.len()
            invariant
                i <= theirs.len(),
                b == entries_view(theirs@),
                decreases_to!(incoming => theirs),
                entries_view(mine@) == merged_entries(a, b, i as int),
            decreases theirs.len() - i,
        {
            let ghost so_far = entries_view(mine@);
            let at: usize = find_key(mine, theirs[i].0.as_str());
            proof {
                lemma_key_at(so_far, b[i as int].0);
            }
            if at < mine.len() {
                merge_objects(&mut mine[at].1, &theirs[i].1);
            } else {
                mine.push((theirs[i].0.clone(), copy(&theirs[i].1)));
            }
            i += 1;
            assert(entries_view(mine@) =~= merged_entries(a, b, i as int));
        }
        return;
    }
    *target = copy(incoming);
}


impl Clone for Json {
    fn clone(&self) -> (r: Json)
        ensures
            r@ == self@,
    {
        copy(self)
    }
}

impl Default for Json {
    fn default() -> (r: Json)
        ensures
            r@ == JsonView::Null,
    {
        Json::Null
    }
}

// ---------------------------------------------------------------------------
// Equality
// ---------------------------------------------------------------------------
/// What a value means: objects do not depend on the order of their entries.
pub enum Meaning {
    Null,
    Bool(bool),
    Number(NumberView),
    Text(Seq<char>),
    Array(Seq<Meaning>),
    Object(Map<Seq<char>, Meaning>),
}

/// What a value means.
pub open spec fn meaning(v: JsonView) -> Meaning
    decreases v,
{
    match v {
        JsonView::Null => Meaning::Null,
        JsonView::Bool(b) => Meaning::Bool(b),
        JsonView::Number(n) => Meaning::Number(n),
        JsonView::Text(t) => Meaning::Text(t),
        JsonView::Array(items) => Meaning::Array(
            Seq::new(
                items.len(),
                |i: int|
                    if 0 <= i < items.len() {
                        meaning(items[i])
                    } else {
                        Meaning::Null
                    },
            ),
        ),
        JsonView::Object(o) => Meaning::Object(
            Map::new(
                |k: Seq<char>| has_key(o, k),
                |k: Seq<char>|
                    if 0 <= key_at(o, k) < o.len() {
                        meaning(o[key_at(o, k)].1)
                    } else {
                        Meaning::Null
                    },
            ),
        ),
    }
}

/// What the entries of an object mean.
pub open spec fn entries_meaning(o: Entries) -> Map<Seq<char>, Meaning> {
    Map::new(|k: Seq<char>| has_key(o, k), |k: Seq<char>| meaning(o[key_at(o, k)].1))
}

pub proof fn lemma_object_meaning(o: Entries)
    ensures
        meaning(JsonView::Object(o)) == Meaning::Object(entries_meaning(o)),
{
    assert forall|k: Seq<char>| has_key(o, k) implies 0 <= key_at(o, k) < o.len() by {
        lemma_key_at(o, k);
    }
    assert(meaning(JsonView::Object(o))->Object_0 =~= entries_meaning(o));
}

pub proof fn lemma_array_meaning(items: Seq<JsonView>)
    ensures
        meaning(JsonView::Array(items)) == Meaning::Array(
            items.map_values(|v: JsonView| meaning(v)),
        ),
{
    assert(meaning(JsonView::Array(items))->Array_0 =~= items.map_values(
        |v: JsonView| meaning(v),
    ));
}

/// Whether two values mean the same.
pub fn equal(a: &Json, b: &Json) -> (r: bool)
    ensures
        r == (meaning(a@) == meaning(b@)),
    decreases a,
{
    match (a, b) {
        (Json::Null, Json::Null) => true,
        (Json::Bool(x), Json::Bool(y)) => *x == *y,
        (Json::Number(x), Json::Number(y)) => same_number(x, y),
        (Json::Text(x), Json::Text(y)) => str_equal(x.as_str(), y.as_str()),
        (Json::Array(x), Json::Array(y)) => {
            proof {
                lemma_array_view(*x);
                lemma_array_view(*y);
                lemma_array_meaning(items_view(x@));
                lemma_array_meaning(items_view(y@));
            }
            let ghost f = |v: JsonView| meaning(v);
            let ghost p = items_view(x@).map_values(f);
            let ghost q = items_view(y@).map_values(f);
            assert((meaning(a@) == meaning(b@)) == (p == q));
            if x.len() != y.len() {
                assert(p.len() != q.len());
                return false;
            }
            let mut i: usize = 0;
            while i < x.len()
                invariant
                    i <= x.len() == y.len(),
                    decreases_to!(a => x),
                    f == (|v: JsonView| meaning(v)),
                    p == items_view(x@).map_values(f),
                    q == items_view(y@).map_values(f),
                    (meaning(a@) == meaning(b@)) == (p == q),
                    forall|k: int| 0 <= k < i ==> p[k] == q[k],
                decreases x.len() - i,
            {
                if !equal(&x[i], &y[i]) {
                    assert(p[i as int] != q[i as int]);
                    return false;
                }
                assert(p[i as int] == q[i as int]);
                i += 1;
            }
            assert(p =~= q);
            true
        },
        (Json::Object(x), Json::Object(y)) => {
            proof {
                lemma_object_view(*x);
                lemma_object_view(*y);
                lemma_object_meaning(entries_view(x@));
                lemma_object_meaning(entries_view(y@));
            }
            equal_entries(x, y)
        },
        _ => false,
    }
}

/// Whether the entries of two objects mean the same.
pub fn equal_entries(x: &Vec<(String, Json)>, y: &Vec<(String, Json)>) -> (r: bool)
    ensures
        r == (entries_meaning(entries_view(x@)) == entries_meaning(entries_view(y@))),
    decreases x,
{
    let ghost o = entries_view(x@);
    let ghost p = entries_view(y@);
    let ghost m = entries_meaning(o);
    let ghost n = entries_meaning(p);
    let mut i: usize = 0;
    while i < x.len()
        invariant
            i <= x.len(),
            o == entries_view(x@),
            p == entries_view(y@),
            m == entries_meaning(o),
            n == entries_meaning(p),
            forall|k: int|
                0 <= k < i ==> has_key(p, (#[trigger] o[k]).0) && m[o[k].0] == n[o[k].0],
        decreases x.len() - i,
    {
        let key = x[i].0.as_str();
        let first: usize = find_key(x, key);
        let at: usize = find_key(y, key);
        proof {
            assert(o[i as int].0 == key@);
            lemma_key_at(o, key@);
            lemma_key_at(p, key@);
            assert(has_key(o, key@));
            assert(m.dom().contains(key@));
        }
        if at == y.len() {
            assert(!n.dom().contains(key@));
            return false;
        }
        assert(m[key@] == meaning(x@[first as int].1@));
        assert(n[key@] == meaning(y@[at as int].1@));
        if !equal(&x[first].1, &y[at].1) {
            return false;
        }
        i += 1;
    }
    let mut j: usize = 0;
    while j < y.len()
        invariant
            j <= y.len(),
            o == entries_view(x@),
            p == entries_view(y@),
            m == entries_meaning(o),
            n == entries_meaning(p),
            forall|k: int| 0 <= k < j ==> has_key(o, (#[trigger] p[k]).0),
        decreases y.len() - j,
    {
        let key = y[j].0.as_str();
        let at: usize = find_key(x, key);
        proof {
            assert(p[j as int].0 == key@);
            lemma_key_at(o, key@);
            assert(has_key(p, key@));
            assert(n.dom().contains(key@));
        }
        if at == x.len() {
            assert(!m.dom().contains(key@));
            return false;
        }
        j += 1;
    }
    assert(m =~= n) by {
        assert forall|k: Seq<char>| m.dom().contains(k) == n.dom().contains(k) by {
            if has_key(o, k) {
                let z = choose|z: int| 0 <= z < o.len() && #[trigger] o[z].0 == k;
                assert(has_key(p, o[z].0));
            }
            if has_key(p, k) {
                let z = choose|z: int| 0 <= z < p.len() && #[trigger] p[z].0 == k;
                assert(has_key(o, p[z].0));
            }
        }
        assert forall|k: Seq<char>| m.dom().contains(k) implies m[k] == n[k] by {
            let z = choose|z: int| 0 <= z < o.len() && #[trigger] o[z].0 == k;
            assert(m[o[z].0] == n[o[z].0]);
        }
    }
    true
}

} // verus!
