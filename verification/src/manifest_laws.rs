//! What holds of a manifest: which names it may have, what is said of it, and what it requires.
use vstd::prelude::*;

use crate::holding::lemma_one_more;
use crate::installer::loading_laws::{constraint_on, lemma_with_link};
use crate::json::{Entries, JsonView};
use crate::links::{has_link, Pairs};
use crate::loader::{manifest_errors, valid_name, valid_stability};
use crate::schema::{extended, named_texts, ComposerJson};
use crate::text::{after, before, find_from, lemma_find_from, lowercase, pieces};

verus! {

/// One side of a name: lower case, digits, dashes, underscores and dots, and at least one of them.
pub open spec fn is_side(s: Seq<char>) -> bool {
    s.len() > 0 && forall|i: int|
        0 <= i < s.len() ==> ('a' <= #[trigger] s[i] && s[i] <= 'z') || ('0' <= s[i] && s[i] <= '9')
            || s[i] == '-' || s[i] == '_' || s[i] == '.'
}

proof fn lemma_no_slash(s: Seq<char>)
    requires
        is_side(s),
    ensures
        pieces(s, '/') == seq![s],
{
    lemma_find_from(s, '/', 0);
    let i = find_from(s, '/', 0);
    if i < s.len() {
        assert(s[i] == '/');
    }
}

/// A vendor and a package with one slash between them are a name where both sides are allowed.
pub proof fn law_vendor_and_package_are_a_name(vendor: Seq<char>, package: Seq<char>)
    requires
        is_side(vendor),
        is_side(package),
    ensures
        valid_name(vendor + "/"@ + package),
        !valid_name(vendor),
{
    reveal_strlit("/");
    let s = vendor + "/"@ + package;
    let n = vendor.len() as int;
    lemma_find_from(s, '/', 0);
    assert(s[n] == '/');
    assert forall|k: int| 0 <= k < n implies #[trigger] s[k] != '/' by {
        assert(s[k] == vendor[k]);
    }
    assert(find_from(s, '/', 0) == n);
    assert(before(s, n) =~= vendor);
    assert(after(s, n + 1) =~= package);
    lemma_no_slash(package);
    lemma_no_slash(vendor);
    assert(pieces(s, '/') =~= seq![vendor, package]);
    assert(crate::loader::name_part(vendor));
    assert(crate::loader::name_part(package));
}

/// A name has a vendor and a package, both allowed, with one slash between them.
pub proof fn law_name_has_two_sides(s: Seq<char>) -> (sides: (Seq<char>, Seq<char>))
    requires
        valid_name(s),
    ensures
        s == sides.0 + "/"@ + sides.1,
        is_side(sides.0),
        is_side(sides.1),
{
    reveal_strlit("/");
    lemma_find_from(s, '/', 0);
    let i = find_from(s, '/', 0);
    let p = pieces(s, '/');
    assert(i < s.len());
    let a = before(s, i);
    let b = after(s, i + 1);
    assert(p =~= seq![a] + pieces(b, '/'));
    assert(pieces(b, '/').len() == 1);
    lemma_find_from(b, '/', 0);
    if find_from(b, '/', 0) < b.len() {
        crate::text::lemma_pieces_nonempty(after(b, find_from(b, '/', 0) + 1), '/');
    }
    assert(pieces(b, '/')[0] == b);
    assert(p[0] == a && p[1] == b);
    assert(s =~= a + "/"@ + b);
    (a, b)
}

/// A manifest is in order exactly where its name is one, its version is not empty and its stability
/// is known, each where it has one.
pub proof fn law_manifest_in_order(json: ComposerJson)
    ensures
        manifest_errors(json).len() == 0 <==> (json.name is Some ==> valid_name(json.name->0@)) && (
        json.version is Some ==> json.version->0@.len() > 0) && (json.minimum_stability is Some
            ==> valid_stability(json.minimum_stability->0@)),
{
}

/// Everything that is wrong with a manifest is said.
pub proof fn law_every_fault_of_a_manifest_is_said(json: ComposerJson)
    ensures
        json.name is Some && !valid_name(json.name->0@) ==> manifest_errors(json).contains(
            "Invalid package name '"@ + json.name->0@
                + "'. Must be lowercase and match vendor/package format"@,
        ),
        json.version is Some && json.version->0@.len() == 0 ==> manifest_errors(json).contains(
            "Version cannot be empty if specified"@,
        ),
        json.minimum_stability is Some && !valid_stability(json.minimum_stability->0@)
            ==> manifest_errors(json).contains(
            "Invalid minimum-stability '"@ + json.minimum_stability->0@
                + "'. Must be one of: [\"dev\", \"alpha\", \"beta\", \"rc\", \"stable\"]"@,
        ),
{
    let e1 = "Invalid package name '"@ + json.name->0@
        + "'. Must be lowercase and match vendor/package format"@;
    let e2 = "Version cannot be empty if specified"@;
    let e3 = "Invalid minimum-stability '"@ + json.minimum_stability->0@
        + "'. Must be one of: [\"dev\", \"alpha\", \"beta\", \"rc\", \"stable\"]"@;
    let a = if json.name is Some && !valid_name(json.name->0@) {
        Seq::<Seq<char>>::empty().push(e1)
    } else {
        Seq::<Seq<char>>::empty()
    };
    let b = if json.version is Some && json.version->0@.len() == 0 {
        a.push(e2)
    } else {
        a
    };
    lemma_one_more(Seq::<Seq<char>>::empty(), e1, e1);
    lemma_one_more(a, e2, e1);
    lemma_one_more(a, e2, e2);
    lemma_one_more(b, e3, e1);
    lemma_one_more(b, e3, e2);
    lemma_one_more(b, e3, e3);
}

/// The stabilities that are known are five, whatever the case of the letters.
pub proof fn law_known_stabilities(word: Seq<char>)
    ensures
        valid_stability(word) <==> lowercase(word) == "dev"@ || lowercase(word) == "alpha"@
            || lowercase(word) == "beta"@ || lowercase(word) == "rc"@ || lowercase(word)
            == "stable"@,
{
}

proof fn lemma_extended(a: Pairs, b: Pairs, n: int, name: Seq<char>)
    requires
        0 <= n <= b.len(),
    ensures
        has_link(extended(a, b, n), name) <==> has_link(a, name) || exists|i: int|
            0 <= i < n && (#[trigger] b[i]).0 == name,
        forall|k: int|
            0 <= k < n && (#[trigger] b[k]).0 == name && (forall|j: int|
                k < j < n ==> (#[trigger] b[j]).0 != name) ==> constraint_on(
                extended(a, b, n),
                name,
            ) == b[k].1,
        has_link(a, name) && (forall|k: int| 0 <= k < n ==> (#[trigger] b[k]).0 != name)
            ==> constraint_on(extended(a, b, n), name) == constraint_on(a, name),
    decreases n,
{
    if n > 0 {
        lemma_extended(a, b, n - 1, name);
        let t = extended(a, b, n - 1);
        lemma_with_link(t, b[n - 1].0, b[n - 1].1, name);
        lemma_with_link(t, b[n - 1].0, b[n - 1].1, b[n - 1].0);
        assert forall|k: int|
            0 <= k < n && (#[trigger] b[k]).0 == name && (forall|j: int|
                k < j < n ==> (#[trigger] b[j]).0 != name) implies constraint_on(
            extended(a, b, n),
            name,
        ) == b[k].1 by {
            if k < n - 1 {
                assert(b[n - 1].0 != name);
                assert(has_link(t, name));
            }
        }
    }
}

/// All requirements are those for production and those for development; what is required for
/// development counts with its own constraint.
pub proof fn law_all_requirements_are_both(a: Pairs, b: Pairs, name: Seq<char>)
    ensures
        has_link(extended(a, b, b.len() as int), name) <==> has_link(a, name) || exists|i: int|
            0 <= i < b.len() && (#[trigger] b[i]).0 == name,
        forall|k: int|
            0 <= k < b.len() && (#[trigger] b[k]).0 == name && (forall|j: int|
                k < j < b.len() ==> (#[trigger] b[j]).0 != name) ==> constraint_on(
                extended(a, b, b.len() as int),
                name,
            ) == b[k].1,
        has_link(a, name) && (forall|k: int| 0 <= k < b.len() ==> (#[trigger] b[k]).0 != name)
            ==> constraint_on(extended(a, b, b.len() as int), name) == constraint_on(a, name),
{
    lemma_extended(a, b, b.len() as int, name);
}

proof fn lemma_named_texts(o: Entries, n: int, e: (Seq<char>, Seq<char>))
    requires
        0 <= n <= o.len(),
    ensures
        named_texts(o, n).contains(e) <==> exists|i: int|
            0 <= i < n && #[trigger] o[i] == (e.0, JsonView::Text(e.1)),
    decreases n,
{
    if n > 0 {
        lemma_named_texts(o, n - 1, e);
        if let JsonView::Text(t) = o[n - 1].1 {
            lemma_one_more(named_texts(o, n - 1), (o[n - 1].0, t), e);
        }
    }
}

/// Every branch that the manifest has stand for a version does.
pub proof fn law_every_branch_alias_counts(
    json: ComposerJson,
    o: Entries,
    branch: Seq<char>,
    version: Seq<char>,
)
    requires
        json.extra@.field("branch-alias"@) == Some(JsonView::Object(o)),
    ensures
        json.branch_aliases().contains((branch, version)) <==> o.contains(
            (branch, JsonView::Text(version)),
        ),
{
    lemma_named_texts(o, o.len() as int, (branch, version));
    if o.contains((branch, JsonView::Text(version))) {
        let i = choose|i: int| 0 <= i < o.len() && o[i] == (branch, JsonView::Text(version));
        assert(o[i] == (branch, JsonView::Text(version)));
    }
}

} // verus!
