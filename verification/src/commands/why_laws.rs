//! What holds of the answers of `why` and `why-not`: every package that depends on another is
//! told of.
use vstd::prelude::*;

use indexmap::IndexMap;

use crate::autoload::file_laws::{lemma_parts, lemma_within};
use crate::commands::why::{
    below, better_command, deeper, early_answer, head_text, is_root, kept,
    key_of, keys_with, lemma_below, lemma_kept, row_of, rows, size, table_text,
    total_of, tree_line, tree_text, version_in, walked, with_replaced, with_rows,
    Dependent,
};
use crate::holding::{lemma_after, lemma_infix_plus, lemma_one_more, lemma_plus};
use crate::installer::loading_laws::lemma_sorted_holds;
use crate::links::{links, Pairs};
use crate::package::Package;
use crate::sort::by_name;
use crate::text::{has_infix, lowercase, padded};

verus! {

/// A package with the same name and target is in the list.
pub open spec fn is_met(all: Seq<Dependent>, d: Dependent) -> bool {
    exists|i: int| 0 <= i < all.len() && key_of(#[trigger] all[i]) == key_of(d)
}

proof fn lemma_keys(level: Seq<Dependent>, seen: Set<Seq<char>>, x: Seq<char>)
    ensures
        keys_with(level, seen).contains(x) <==> seen.contains(x) || exists|i: int|
            0 <= i < kept(level, seen).len() && key_of(#[trigger] kept(level, seen)[i]) == x,
        keys_with(level, seen).contains(x) <==> seen.contains(x) || exists|i: int|
            0 <= i < level.len() && key_of(#[trigger] level[i]) == x,
    decreases level.len(),
{
    if level.len() > 0 {
        let head = level.drop_last();
        lemma_keys(head, seen, x);
        let t = kept(head, seen);
        let k = kept(level, seen);
        let last = key_of(level.last());
        if exists|i: int| 0 <= i < t.len() && key_of(#[trigger] t[i]) == x {
            let i = choose|i: int| 0 <= i < t.len() && key_of(#[trigger] t[i]) == x;
            assert(k[i] == t[i]);
        }
        if x == last {
            if keys_with(head, seen).contains(last) {
            } else {
                assert(k[t.len() as int] == level.last());
            }
            assert(key_of(level[level.len() - 1]) == x);
        }
        if exists|i: int| 0 <= i < k.len() && key_of(#[trigger] k[i]) == x {
            let i = choose|i: int| 0 <= i < k.len() && key_of(#[trigger] k[i]) == x;
            if i < t.len() {
                assert(t[i] == k[i]);
            }
        }
        if exists|i: int| 0 <= i < head.len() && key_of(#[trigger] head[i]) == x {
            let i = choose|i: int| 0 <= i < head.len() && key_of(#[trigger] head[i]) == x;
            assert(level[i] == head[i]);
        }
        if exists|i: int| 0 <= i < level.len() && key_of(#[trigger] level[i]) == x {
            let i = choose|i: int| 0 <= i < level.len() && key_of(#[trigger] level[i]) == x;
            if i < head.len() {
                assert(head[i] == level[i]);
            }
        }
    }
}

proof fn lemma_below_holds(level: Seq<Dependent>, i: int, c: int)
    requires
        0 <= i < level.len(),
        level[i].children matches Some(v) && 0 <= c < v@.len(),
    ensures
        below(level).contains(level[i].children->0@[c]),
    decreases level.len(),
{
    let head = level.drop_last();
    let own = match level.last().children {
        Some(v) => v@,
        None => Seq::empty(),
    };
    let e = level[i].children->0@[c];
    lemma_plus(below(head), own, e);
    if i < head.len() {
        assert(head[i] == level[i]);
        lemma_below_holds(head, i, c);
    } else {
        assert(own[c] == e);
    }
}

proof fn lemma_walked(level: Seq<Dependent>, seen: Set<Seq<char>>)
    ensures
        forall|i: int|
            0 <= i < level.len() ==> seen.contains(key_of(#[trigger] level[i])) || is_met(
                walked(level, seen),
                level[i],
            ),
        forall|i: int, c: int|
            0 <= i < walked(level, seen).len() && (walked(level, seen)[i].children matches Some(v)
                && 0 <= c < v@.len()) ==> seen.contains(
                key_of(#[trigger] walked(level, seen)[i].children->0@[c]),
            ) || is_met(walked(level, seen), walked(level, seen)[i].children->0@[c]),
    decreases total_of(level),
{
    if level.len() > 0 {
        let k = kept(level, seen);
        let keys = keys_with(level, seen);
        let next = below(k);
        let rest = walked(next, keys);
        let w = walked(level, seen);
        lemma_below(k);
        lemma_kept(level, seen);
        assert(size(level.last()) >= 1);
        lemma_walked(next, keys);
        assert(w == k + rest);
        assert forall|x: Dependent| keys.contains(#[trigger] key_of(x)) implies seen.contains(
            key_of(x),
        ) || is_met(w, x) by {
            lemma_keys(level, seen, key_of(x));
            if !seen.contains(key_of(x)) {
                let i = choose|i: int| 0 <= i < k.len() && key_of(#[trigger] k[i]) == key_of(x);
                assert(w[i] == k[i]);
            }
        }
        assert forall|x: Dependent| #[trigger] is_met(rest, x) implies is_met(w, x) by {
            let i = choose|i: int| 0 <= i < rest.len() && key_of(#[trigger] rest[i]) == key_of(x);
            assert(w[k.len() + i] == rest[i]);
        }
        assert forall|i: int| 0 <= i < level.len() implies seen.contains(
            key_of(#[trigger] level[i]),
        ) || is_met(w, level[i]) by {
            lemma_keys(level, seen, key_of(level[i]));
        }
        assert forall|i: int, c: int|
            0 <= i < w.len() && (w[i].children matches Some(v) && 0 <= c
                < v@.len()) implies seen.contains(key_of(#[trigger] w[i].children->0@[c])) || is_met(
            w,
            w[i].children->0@[c],
        ) by {
            let x = w[i].children->0@[c];
            if i < k.len() {
                assert(w[i] == k[i]);
                lemma_below_holds(k, i, c);
                let m = choose|m: int| 0 <= m < next.len() && next[m] == x;
                assert(next[m] == x);
                assert(keys.contains(key_of(next[m])) || is_met(rest, next[m]));
            } else {
                assert(w[i] == rest[i - k.len()]);
                assert(rest[i - k.len()].children->0@[c] == x);
            }
        }
    }
}

/// Every package that was found is in the table, and with a package that is in it, every one that
/// depends on it in turn.
pub proof fn law_every_dependent_is_in_the_table(results: Seq<Dependent>)
    ensures
        forall|i: int|
            0 <= i < results.len() ==> is_met(
                walked(results, Set::empty()),
                #[trigger] results[i],
            ),
        forall|i: int, c: int|
            0 <= i < walked(results, Set::empty()).len() && (walked(
                results,
                Set::empty(),
            )[i].children matches Some(v) && 0 <= c < v@.len()) ==> is_met(
                walked(results, Set::empty()),
                #[trigger] walked(results, Set::empty())[i].children->0@[c],
            ),
{
    lemma_walked(results, Set::empty());
}

proof fn lemma_rows(all: Seq<Dependent>, root: bool, i: int)
    requires
        0 <= i < all.len(),
        is_root(all[i]) == root,
    ensures
        rows(all, root).contains((all[i].name@, row_of(all[i]))),
    decreases all.len(),
{
    let head = all.drop_last();
    let t = rows(head, root);
    let e = (all[i].name@, row_of(all[i]));
    lemma_one_more(t, (all.last().name@, row_of(all.last())), e);
    if i < head.len() {
        assert(head[i] == all[i]);
        lemma_rows(head, root, i);
    }
}

proof fn lemma_with_rows(t: Seq<char>, r: Pairs, n: int, k: int)
    requires
        0 <= n <= r.len(),
    ensures
        has_infix(with_rows(t, r, n), t),
        0 <= k < n ==> has_infix(with_rows(t, r, n), r[k].1),
    decreases n,
{
    lemma_infix_plus(t, t, t);
    if n > 0 {
        lemma_with_rows(t, r, n - 1, k);
        let u = with_rows(t, r, n - 1);
        lemma_parts(u, r[n - 1].1);
        lemma_within(with_rows(t, r, n), u, t);
        if 0 <= k < n - 1 {
            lemma_within(with_rows(t, r, n), u, r[k].1);
        }
    }
}

/// Every package of the table has its line, with its name, its version and what it asks for.
pub proof fn law_every_dependent_has_its_line(results: Seq<Dependent>, i: int)
    requires
        0 <= i < walked(results, Set::empty()).len(),
    ensures
        ({
            let d = walked(results, Set::empty())[i];
            has_infix(
                table_text(results),
                padded(d.name@, 40) + " "@ + padded(d.version@, 15) + " "@ + padded(
                    d.link_description@,
                    15,
                ) + " "@ + (d.link_target@ + " ("@ + d.link_constraint@ + ")"@) + "\n"@,
            )
        }),
{
    let all = walked(results, Set::empty());
    let d = all[i];
    let e = (d.name@, row_of(d));
    let root = is_root(d);
    lemma_rows(all, root, i);
    let a = by_name(rows(all, true));
    let b = by_name(rows(all, false));
    lemma_sorted_holds(rows(all, root), e);
    let head = with_rows(head_text(), a, a.len() as int);
    if root {
        let k = choose|k: int| 0 <= k < a.len() && a[k] == e;
        lemma_with_rows(head_text(), a, a.len() as int, k);
        lemma_with_rows(head, b, b.len() as int, -1);
        lemma_within(table_text(results), head, row_of(d));
    } else {
        let k = choose|k: int| 0 <= k < b.len() && b[k] == e;
        lemma_with_rows(head, b, b.len() as int, k);
    }
}

/// What a line of the tree tells of its package.
pub open spec fn told(d: Dependent) -> Seq<char> {
    d.name@ + " "@ + d.version@ + " ("@ + d.link_description@ + " "@ + d.link_target@ + " "@
        + d.link_constraint@ + ")"@
}

proof fn lemma_tree_line(d: Dependent, prefix: Seq<char>, last: bool)
    ensures
        has_infix(tree_line(d, prefix, last), told(d)),
{
    let front = prefix + (if last {
        "└── "@
    } else {
        "├── "@
    });
    let end = if d.children is None {
        " (circular dependency aborted here)"@
    } else {
        ""@
    };
    let a1 = d.name@;
    let a2 = a1 + " "@;
    let a3 = a2 + d.version@;
    let a4 = a3 + " ("@;
    let a5 = a4 + d.link_description@;
    let a6 = a5 + " "@;
    let a7 = a6 + d.link_target@;
    let a8 = a7 + " "@;
    let a9 = a8 + d.link_constraint@;
    lemma_after(front, a1, " "@);
    lemma_after(front, a2, d.version@);
    lemma_after(front, a3, " ("@);
    lemma_after(front, a4, d.link_description@);
    lemma_after(front, a5, " "@);
    lemma_after(front, a6, d.link_target@);
    lemma_after(front, a7, " "@);
    lemma_after(front, a8, d.link_constraint@);
    lemma_after(front, a9, ")"@);
    let x = told(d);
    let line = tree_line(d, prefix, last);
    assert(line == front + x + end + "\n"@);
    lemma_parts(front, x);
    lemma_parts(front + x, end);
    lemma_parts(front + x + end, "\n"@);
    lemma_within(front + x + end, front + x, x);
    lemma_within(line, front + x + end, x);
}

proof fn lemma_tree(v: Vec<Dependent>, prefix: Seq<char>, n: int, k: int) -> (deep: Seq<char>)
    requires
        0 <= k < n <= v@.len(),
    ensures
        has_infix(tree_text(v, prefix, n), told(v@[k])),
        v@[k].children matches Some(c) ==> has_infix(
            tree_text(v, prefix, n),
            tree_text(c, deep, c@.len() as int),
        ),
    decreases n,
{
    let d = v@[n - 1];
    let last = n == v@.len();
    let t = tree_text(v, prefix, n - 1);
    let line = tree_line(d, prefix, last);
    let whole = tree_text(v, prefix, n);
    let below = deeper(prefix, last);
    lemma_parts(t, line);
    if let Some(c) = d.children {
        lemma_parts(t + line, tree_text(c, below, c@.len() as int));
    } else {
        lemma_parts(t + line, Seq::empty());
        assert(t + line + Seq::<char>::empty() =~= t + line);
    }
    assert(has_infix(whole, t + line));
    if k < n - 1 {
        let deep = lemma_tree(v, prefix, n - 1, k);
        lemma_within(whole, t + line, t);
        lemma_within(whole, t, told(v@[k]));
        if let Some(c) = v@[k].children {
            lemma_within(whole, t, tree_text(c, deep, c@.len() as int));
        }
        deep
    } else {
        lemma_tree_line(d, prefix, last);
        lemma_within(whole, t + line, line);
        lemma_within(whole, line, told(d));
        below
    }
}

/// Every package has its line in the tree, with its name, its version and what it asks for, and
/// below it stands the tree of those that depend on it.
pub proof fn law_every_dependent_is_in_the_tree(v: Vec<Dependent>, prefix: Seq<char>, k: int) -> (deep:
    Seq<char>)
    requires
        0 <= k < v@.len(),
    ensures
        has_infix(
            tree_text(v, prefix, v@.len() as int),
            v@[k].name@ + " "@ + v@[k].version@ + " ("@ + v@[k].link_description@ + " "@
                + v@[k].link_target@ + " "@ + v@[k].link_constraint@ + ")"@,
        ),
        v@[k].children matches Some(c) ==> has_infix(
            tree_text(v, prefix, v@.len() as int),
            tree_text(c, deep, c@.len() as int),
        ),
{
    lemma_tree(v, prefix, v@.len() as int, k)
}

proof fn lemma_with_replaced(
    out: Seq<Seq<char>>,
    matching: Seq<IndexMap<String, String>>,
    n: int,
    name: Seq<char>,
)
    requires
        0 <= n <= matching.len(),
    ensures
        with_replaced(out, matching, n).contains(name) <==> out.contains(name) || exists|
            i: int,
            j: int,
        |
            0 <= i < n && 0 <= j < links(matching[i]).len() && (#[trigger] links(matching[i])[j]).0
                == name,
    decreases n,
{
    if n > 0 {
        lemma_with_replaced(out, matching, n - 1, name);
        let l = links(matching[n - 1]);
        let t = with_replaced(out, matching, n - 1);
        let own = l.map_values(|p: (Seq<char>, Seq<char>)| p.0);
        lemma_plus(t, own, name);
        if own.contains(name) {
            let j = choose|j: int| 0 <= j < own.len() && own[j] == name;
            assert(links(matching[n - 1])[j].0 == name);
        }
        if exists|j: int| 0 <= j < l.len() && (#[trigger] l[j]).0 == name {
            let j = choose|j: int| 0 <= j < l.len() && (#[trigger] l[j]).0 == name;
            assert(own[j] == name);
        }
        if exists|i: int, j: int|
            0 <= i < n && 0 <= j < links(matching[i]).len() && (#[trigger] links(matching[i])[j]).0
                == name {
            let (i, j) = choose|i: int, j: int|
                0 <= i < n && 0 <= j < links(matching[i]).len() && (#[trigger] links(
                    matching[i],
                )[j]).0 == name;
            if i == n - 1 {
                assert(l[j].0 == name);
            } else {
                assert(links(matching[i])[j].0 == name);
            }
        }
    }
}

/// `why-not` searches for the package and for all that the packages found replace.
pub proof fn law_replaced_names_are_searched_for(
    needle: Seq<char>,
    matching: Seq<IndexMap<String, String>>,
    name: Seq<char>,
)
    ensures
        with_replaced(seq![needle], matching, matching.len() as int).contains(name) <==> name
            == needle || exists|i: int, j: int|
            0 <= i < matching.len() && 0 <= j < links(matching[i]).len() && (#[trigger] links(
                matching[i],
            )[j]).0 == name,
{
    lemma_with_replaced(seq![needle], matching, matching.len() as int, name);
    assert(seq![needle][0] == needle);
    assert(seq![needle].len() == 1);
}

/// A package is installed exactly where one has its name, whatever the case of the letters, and
/// the version that is shown is that of such a package.
pub proof fn law_installed_package_is_found(packages: Seq<Package>, name: Seq<char>)
    ensures
        version_in(packages, name, packages.len() as int) is Some <==> exists|k: int|
            0 <= k < packages.len() && lowercase((#[trigger] packages[k]).name@) == lowercase(name),
        version_in(packages, name, packages.len() as int) matches Some(v) ==> exists|k: int|
            0 <= k < packages.len() && lowercase((#[trigger] packages[k]).name@) == lowercase(name)
                && v == packages[k].shown_version(),
{
    lemma_version_in(packages, name, packages.len() as int);
}

proof fn lemma_version_in(packages: Seq<Package>, name: Seq<char>, n: int)
    requires
        0 <= n <= packages.len(),
    ensures
        version_in(packages, name, n) is Some <==> exists|k: int|
            0 <= k < n && lowercase((#[trigger] packages[k]).name@) == lowercase(name),
        version_in(packages, name, n) matches Some(v) ==> exists|k: int|
            0 <= k < n && lowercase((#[trigger] packages[k]).name@) == lowercase(name) && v
                == packages[k].shown_version(),
    decreases n,
{
    if n > 0 {
        lemma_version_in(packages, name, n - 1);
        if version_in(packages, name, n - 1) is Some {
            let k = choose|k: int|
                0 <= k < n - 1 && lowercase((#[trigger] packages[k]).name@) == lowercase(name)
                    && version_in(packages, name, n - 1)->0 == packages[k].shown_version();
            assert(lowercase(packages[k].name@) == lowercase(name));
        }
    }
}

/// The hint names the command that fits: to require for development what is required so, to
/// require what is required for production alone, and else to update.
pub proof fn law_hint_names_the_fitting_command(
    require: Pairs,
    require_dev: Pairs,
    package: Seq<char>,
)
    ensures
        (exists|i: int|
            0 <= i < require_dev.len() && lowercase((#[trigger] require_dev[i]).0) == lowercase(
                package,
            )) ==> better_command(require, require_dev, package) == "require --dev"@,
        !(exists|i: int|
            0 <= i < require_dev.len() && lowercase((#[trigger] require_dev[i]).0) == lowercase(
                package,
            )) && (exists|i: int|
            0 <= i < require.len() && lowercase((#[trigger] require[i]).0) == lowercase(package))
            ==> better_command(require, require_dev, package) == "require"@,
        !(exists|i: int|
            0 <= i < require_dev.len() && lowercase((#[trigger] require_dev[i]).0) == lowercase(
                package,
            )) && !(exists|i: int|
            0 <= i < require.len() && lowercase((#[trigger] require[i]).0) == lowercase(package))
            ==> better_command(require, require_dev, package) == "update"@,
{
}

/// A package that nobody knows is told to be missing, and the command fails; `why-not` of a package
/// that is installed is told so, with its version, and does not fail.
pub proof fn law_early_answers(
    needle: Seq<char>,
    matching: nat,
    installed: Option<Seq<char>>,
    inverted: bool,
)
    ensures
        matching == 0 ==> (early_answer(needle, matching, installed, inverted) matches Some(a)
            && a.code == 1 && has_infix(a.err, needle)),
        matching > 0 && inverted ==> (installed matches Some(v) ==> (early_answer(
            needle,
            matching,
            installed,
            inverted,
        ) matches Some(a) && a.code == 0 && has_infix(a.out, needle + "\" "@ + v))),
        matching > 0 && (!inverted || installed is None) ==> early_answer(
            needle,
            matching,
            installed,
            inverted,
        ) is None,
{
    lemma_parts("Error: Could not find package \""@, needle);
    lemma_parts("Error: Could not find package \""@ + needle, "\" in your project\n"@);
    lemma_within(
        "Error: Could not find package \""@ + needle + "\" in your project\n"@,
        "Error: Could not find package \""@ + needle,
        needle,
    );
    if let Some(v) = installed {
        let x = needle + "\" "@ + v;
        let tail = " is already installed! To find out why, run `composer-rs why "@ + needle
            + "`\n"@;
        let whole = "Package \""@ + needle + "\" "@ + v
            + " is already installed! To find out why, run `composer-rs why "@ + needle + "`\n"@;
        assert(whole =~= "Package \""@ + x + tail);
        lemma_parts("Package \""@, x);
        lemma_parts("Package \""@ + x, tail);
        lemma_within(whole, "Package \""@ + x, x);
    }
}

} // verus!
