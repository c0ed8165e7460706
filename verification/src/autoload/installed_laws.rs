//! What holds of what PHP code is told of the packages: every package is told of, with what it
//! stands in for, and so is the project.
use vstd::prelude::*;

use crate::autoload::installed::{
    all_stand_ins, all_versions, entries_text, entry_text, installed_entry, installed_text,
    installed_versions, php_array, php_literal, php_optional, root_entry, stood_in, tidied,
    version_names, version_under, virtual_entry, with_stand_ins, with_text, with_version,
    EntryView, RootView, Versions,
};
use crate::autoload::types::PackageAutoload;
use crate::holding::{lemma_infix_plus, lemma_one_more};
use crate::links::{links, Pairs};
use crate::lock::opt;
use crate::names::platform;
use crate::sort::lemma_texts_sorted_hold;
use crate::sorted::{ascending, is_present, lemma_ascending, lemma_place, place};
use crate::text::{has_infix, lemma_precedes_total, precedes, views};

verus! {

proof fn lemma_with_version(v: Versions, name: Seq<char>, e: EntryView, other: Seq<char>)
    requires
        ascending(version_names(v)),
    ensures
        ascending(version_names(with_version(v, name, e))),
        version_under(with_version(v, name, e), name) == Some(e),
        other != name ==> version_under(with_version(v, name, e), other) == version_under(v, other),
{
    let names = version_names(v);
    let r = with_version(v, name, e);
    let at = place(names, name);
    lemma_place(names, name);
    lemma_place(names, other);
    lemma_ascending(names, name);
    lemma_ascending(names, other);
    if is_present(names, name) {
        assert(names[at] == v[at].0);
        assert(version_names(r) =~= names);
    } else {
        assert(version_names(r) =~= names.insert(at, name));
    }
    let all = version_names(r);
    lemma_place(all, name);
    lemma_place(all, other);
    lemma_ascending(all, name);
    lemma_ascending(all, other);
    assert(all[at] == name);
    assert(all.contains(name));
    lemma_unique(all, at, place(all, name));
    if !is_present(names, name) && other != name {
        if is_present(names, other) {
            let k = place(names, other);
            let m = if k < at {
                k
            } else {
                k + 1
            };
            assert(all[m] == other);
            assert(all.contains(other));
            lemma_unique(all, m, place(all, other));
            assert(r[m] == v[k]);
        }
        if is_present(all, other) {
            let m = place(all, other);
            let k = if m < at {
                m
            } else {
                m - 1
            };
            assert(names[k] == other);
            assert(names.contains(other));
        }
    }
}

proof fn lemma_unique(names: Seq<Seq<char>>, a: int, b: int)
    requires
        ascending(names),
        0 <= a < names.len(),
        0 <= b < names.len(),
        names[a] == names[b],
    ensures
        a == b,
{
    lemma_precedes_total(names[a], names[a]);
    if a < b {
        assert(precedes(names[a], names[b]));
    }
    if b < a {
        assert(precedes(names[b], names[a]));
    }
}

proof fn lemma_installed_versions(packages: Seq<PackageAutoload>, n: int, name: Seq<char>)
    requires
        0 <= n <= packages.len(),
    ensures
        ascending(version_names(installed_versions(packages, n))),
        version_under(installed_versions(packages, n), name) is Some <==> exists|k: int|
            0 <= k < n && (#[trigger] packages[k]).name@ == name,
        forall|i: int|
            0 <= i < n && (#[trigger] packages[i]).name@ == name && (forall|k: int|
                i < k < n ==> (#[trigger] packages[k]).name@ != name) ==> version_under(
                installed_versions(packages, n),
                name,
            ) == Some(installed_entry(packages[i])),
    decreases n,
{
    if n > 0 {
        lemma_installed_versions(packages, n - 1, name);
        let p = packages[n - 1];
        lemma_with_version(
            installed_versions(packages, n - 1),
            p.name@,
            installed_entry(p),
            name,
        );
        assert(packages[n - 1] == p);
    } else {
        assert(version_names(installed_versions(packages, 0)) =~= Seq::empty());
    }
}

/// The entry tells the same of the package itself, and nothing less of what stands in for it.
pub open spec fn keeps(before: EntryView, now: EntryView) -> bool {
    &&& now.pretty_version == before.pretty_version
    &&& now.version == before.version
    &&& now.reference == before.reference
    &&& now.package_type == before.package_type
    &&& now.install_path == before.install_path
    &&& now.aliases == before.aliases
    &&& !before.dev_requirement ==> !now.dev_requirement
    &&& forall|t: Seq<char>| before.replaced.contains(t) ==> #[trigger] now.replaced.contains(t)
    &&& forall|t: Seq<char>| before.provided.contains(t) ==> #[trigger] now.provided.contains(t)
}

/// The version that a package stands in for under a link: its own for `self.version`.
pub open spec fn version_stood_for(p: PackageAutoload, constraint: Seq<char>) -> Seq<char> {
    if constraint == "self.version"@ {
        match p.pretty_version {
            Some(v) => v@,
            None => Seq::empty(),
        }
    } else {
        constraint
    }
}

/// The texts that a name is noted to be replaced by, or provided.
pub open spec fn noted(v: Versions, name: Seq<char>, replaces: bool) -> Seq<Seq<char>> {
    match version_under(v, name) {
        Some(e) => if replaces {
            e.replaced
        } else {
            e.provided
        },
        None => Seq::empty(),
    }
}

proof fn lemma_with_text(s: Seq<Seq<char>>, t: Seq<char>, x: Seq<char>)
    ensures
        with_text(s, t).contains(x) <==> s.contains(x) || x == t,
{
    lemma_one_more(s, t, x);
}

proof fn lemma_stand_ins(
    v: Versions,
    p: PackageAutoload,
    names: Pairs,
    n: int,
    replaces: bool,
    name: Seq<char>,
    t: Seq<char>,
)
    requires
        0 <= n <= names.len(),
        ascending(version_names(v)),
    ensures
        ascending(version_names(with_stand_ins(v, p, names, n, replaces))),
        version_under(v, name) matches Some(e) ==> (version_under(
            with_stand_ins(v, p, names, n, replaces),
            name,
        ) matches Some(f) && keeps(e, f)),
        version_under(with_stand_ins(v, p, names, n, replaces), name) is Some <==> version_under(
            v,
            name,
        ) is Some || exists|k: int|
            0 <= k < n && (#[trigger] names[k]).0 == name && !platform(name),
        noted(with_stand_ins(v, p, names, n, replaces), name, replaces).contains(t) <==> noted(
            v,
            name,
            replaces,
        ).contains(t) || exists|k: int|
            0 <= k < n && (#[trigger] names[k]).0 == name && !platform(name) && version_stood_for(
                p,
                names[k].1,
            ) == t,
        noted(with_stand_ins(v, p, names, n, replaces), name, !replaces) == noted(
            v,
            name,
            !replaces,
        ),
    decreases n,
{
    if n > 0 {
        lemma_stand_ins(v, p, names, n - 1, replaces, name, t);
        let u = with_stand_ins(v, p, names, n - 1, replaces);
        let r = with_stand_ins(v, p, names, n, replaces);
        let (own, constraint) = names[n - 1];
        if !platform(own) {
            let present = match version_under(u, own) {
                Some(e) => e,
                None => virtual_entry(p.dev_requirement),
            };
            let version = crate::autoload::installed::stood_for(p, constraint);
            let now = stood_in(present, version, replaces, p.dev_requirement);
            lemma_with_version(u, own, now, name);
            lemma_with_text(present.replaced, version, t);
            lemma_with_text(present.provided, version, t);
            assert forall|x: Seq<char>| present.replaced.contains(x) implies #[trigger] now.replaced.contains(
                x,
            ) by {
                lemma_with_text(present.replaced, version, x);
            }
            assert forall|x: Seq<char>| present.provided.contains(x) implies #[trigger] now.provided.contains(
                x,
            ) by {
                lemma_with_text(present.provided, version, x);
            }
        }
        assert(names[n - 1].0 == own);
    }
}

proof fn lemma_all_stand_ins(
    v: Versions,
    packages: Seq<PackageAutoload>,
    n: int,
    name: Seq<char>,
    t: Seq<char>,
)
    requires
        0 <= n <= packages.len(),
        ascending(version_names(v)),
    ensures
        ascending(version_names(all_stand_ins(v, packages, n))),
        version_under(v, name) matches Some(e) ==> (version_under(
            all_stand_ins(v, packages, n),
            name,
        ) matches Some(f) && keeps(e, f)),
        noted(all_stand_ins(v, packages, n), name, true).contains(t) <==> noted(
            v,
            name,
            true,
        ).contains(t) || exists|i: int, k: int|
            0 <= i < n && 0 <= k < links(packages[i].replaces).len() && (#[trigger] links(
                packages[i].replaces,
            )[k]).0 == name && !platform(name) && version_stood_for(
                packages[i],
                links(packages[i].replaces)[k].1,
            ) == t,
        noted(all_stand_ins(v, packages, n), name, false).contains(t) <==> noted(
            v,
            name,
            false,
        ).contains(t) || exists|i: int, k: int|
            0 <= i < n && 0 <= k < links(packages[i].provides).len() && (#[trigger] links(
                packages[i].provides,
            )[k]).0 == name && !platform(name) && version_stood_for(
                packages[i],
                links(packages[i].provides)[k].1,
            ) == t,
    decreases n,
{
    if n > 0 {
        lemma_all_stand_ins(v, packages, n - 1, name, t);
        let p = packages[n - 1];
        let a = all_stand_ins(v, packages, n - 1);
        let x = links(p.replaces);
        let y = links(p.provides);
        lemma_stand_ins(a, p, x, x.len() as int, true, name, t);
        let b = with_stand_ins(a, p, x, x.len() as int, true);
        lemma_stand_ins(b, p, y, y.len() as int, false, name, t);
        assert(packages[n - 1] == p);
        if version_under(v, name) is Some {
            let e = version_under(v, name)->0;
            let f = version_under(a, name)->0;
            let g = version_under(b, name)->0;
            assert(keeps(e, f) && keeps(f, g));
        }
        let r = all_stand_ins(v, packages, n);
        if noted(r, name, true).contains(t) && !noted(a, name, true).contains(t) {
            let k = choose|k: int|
                0 <= k < x.len() && (#[trigger] x[k]).0 == name && !platform(name)
                    && version_stood_for(p, x[k].1) == t;
            assert(links(packages[n - 1].replaces)[k].0 == name);
        }
        if noted(r, name, false).contains(t) && !noted(a, name, false).contains(t) {
            let k = choose|k: int|
                0 <= k < y.len() && (#[trigger] y[k]).0 == name && !platform(name)
                    && version_stood_for(p, y[k].1) == t;
            assert(links(packages[n - 1].provides)[k].0 == name);
        }
    }
}

proof fn lemma_tidied(v: Versions, name: Seq<char>)
    ensures
        version_names(v.map_values(|e: (Seq<char>, EntryView)| (e.0, tidied(e.1))))
            == version_names(v),
        version_under(v.map_values(|e: (Seq<char>, EntryView)| (e.0, tidied(e.1))), name) == (
        match version_under(v, name) {
            Some(e) => Some(tidied(e)),
            None => None,
        }),
{
    let w = v.map_values(|e: (Seq<char>, EntryView)| (e.0, tidied(e.1)));
    assert(version_names(w) =~= version_names(v));
    lemma_place(version_names(v), name);
    assert(version_names(v).len() == v.len());
}

/// PHP code is told of every package, under its name, with its version, its reference, its type,
/// where it is and its aliases; what is for production is not told to be for development.
pub proof fn law_every_package_is_told(packages: Seq<PackageAutoload>, root: RootView, i: int)
    requires
        0 <= i < packages.len(),
        packages[i].name@ != root.name,
        forall|k: int| i < k < packages.len() ==> (#[trigger] packages[k]).name@ != packages[i].name@,
    ensures
        ascending(version_names(all_versions(packages, root))),
        version_under(all_versions(packages, root), packages[i].name@) matches Some(e) && {
            &&& e.pretty_version == opt(packages[i].pretty_version)
            &&& e.version == opt(packages[i].version)
            &&& e.reference == opt(packages[i].reference)
            &&& e.package_type == Some(packages[i].package_type@)
            &&& e.install_path == if packages[i].package_type@ == "metapackage"@ {
                None
            } else {
                Some("__DIR__ . '/../"@ + packages[i].install_path@ + "'"@)
            }
            &&& forall|t: Seq<char>| #[trigger]
                e.aliases.contains(t) <==> views(packages[i].aliases@).contains(t)
            &&& !packages[i].dev_requirement ==> !e.dev_requirement
        },
{
    let n = packages.len() as int;
    let name = packages[i].name@;
    let a = installed_versions(packages, n);
    let b = all_stand_ins(a, packages, n);
    lemma_installed_versions(packages, n, name);
    lemma_all_stand_ins(a, packages, n, name, Seq::empty());
    lemma_tidied(b, name);
    let c = b.map_values(|e: (Seq<char>, EntryView)| (e.0, tidied(e.1)));
    lemma_with_version(c, root.name, root_entry(root), name);
    let f = version_under(b, name)->0;
    assert(keeps(installed_entry(packages[i]), f));
    assert forall|t: Seq<char>| #[trigger] tidied(f).aliases.contains(t) <==> views(
        packages[i].aliases@,
    ).contains(t) by {
        lemma_texts_sorted_hold(f.aliases, t);
    }
}

/// PHP code is told what each package replaces and provides, platform packages aside: a version
/// is noted under a name exactly where some package stands in for the name with it.
pub proof fn law_stand_ins_are_told(
    packages: Seq<PackageAutoload>,
    root: RootView,
    name: Seq<char>,
    t: Seq<char>,
)
    requires
        name != root.name,
    ensures
        noted(all_versions(packages, root), name, true).contains(t) <==> exists|i: int, k: int|
            0 <= i < packages.len() && 0 <= k < links(packages[i].replaces).len() && (
            #[trigger] links(packages[i].replaces)[k]).0 == name && !platform(name)
                && version_stood_for(packages[i], links(packages[i].replaces)[k].1) == t,
        noted(all_versions(packages, root), name, false).contains(t) <==> exists|i: int, k: int|
            0 <= i < packages.len() && 0 <= k < links(packages[i].provides).len() && (
            #[trigger] links(packages[i].provides)[k]).0 == name && !platform(name)
                && version_stood_for(packages[i], links(packages[i].provides)[k].1) == t,
{
    let n = packages.len() as int;
    let a = installed_versions(packages, n);
    let b = all_stand_ins(a, packages, n);
    lemma_installed_versions(packages, n, name);
    lemma_nothing_noted(packages, n, name);
    lemma_all_stand_ins(a, packages, n, name, t);
    lemma_tidied(b, name);
    let c = b.map_values(|e: (Seq<char>, EntryView)| (e.0, tidied(e.1)));
    lemma_with_version(c, root.name, root_entry(root), name);
    if version_under(b, name) is Some {
        let e = version_under(b, name)->0;
        lemma_texts_sorted_hold(e.replaced, t);
        lemma_texts_sorted_hold(e.provided, t);
    }
}

proof fn lemma_nothing_noted(packages: Seq<PackageAutoload>, n: int, name: Seq<char>)
    requires
        0 <= n <= packages.len(),
    ensures
        ascending(version_names(installed_versions(packages, n))),
        noted(installed_versions(packages, n), name, true).len() == 0,
        noted(installed_versions(packages, n), name, false).len() == 0,
    decreases n,
{
    if n > 0 {
        lemma_nothing_noted(packages, n - 1, name);
        let p = packages[n - 1];
        lemma_with_version(
            installed_versions(packages, n - 1),
            p.name@,
            installed_entry(p),
            name,
        );
    } else {
        assert(version_names(installed_versions(packages, 0)) =~= Seq::empty());
    }
}

/// PHP code is told of the project, under its name.
pub proof fn law_project_is_told(packages: Seq<PackageAutoload>, root: RootView)
    ensures
        version_under(all_versions(packages, root), root.name) matches Some(e) && e.pretty_version
            == Some(root.pretty_version) && e.version == Some(root.version) && e.reference
            == root.reference && e.package_type == Some(root.package_type) && e.aliases
            == root.aliases && !e.dev_requirement,
{
    let n = packages.len() as int;
    let a = installed_versions(packages, n);
    let b = all_stand_ins(a, packages, n);
    lemma_installed_versions(packages, n, root.name);
    lemma_all_stand_ins(a, packages, n, root.name, Seq::empty());
    lemma_tidied(b, root.name);
    let c = b.map_values(|e: (Seq<char>, EntryView)| (e.0, tidied(e.1)));
    lemma_with_version(c, root.name, root_entry(root), root.name);
}

// ---------------------------------------------------------------------------
// The text
// ---------------------------------------------------------------------------
/// What stands in a text stays in it with more behind it.
proof fn lemma_stays(a: Seq<char>, b: Seq<char>, x: Seq<char>)
    ensures
        has_infix(a, x) ==> has_infix(a + b, x),
        has_infix(a + b, b),
        has_infix(a + b, a),
{
    lemma_infix_plus(a, b, x);
    lemma_infix_plus(a, b, b);
    lemma_infix_plus(a, b, a);
    lemma_infix_plus(a, b, b);
    lemma_infix_plus(b, a, b);
}

/// A line as it stands in the text.
pub open spec fn line(label: Seq<char>, value: Seq<char>) -> Seq<char> {
    label + value + ",\n"@
}

proof fn lemma_line(t: Seq<char>, label: Seq<char>, value: Seq<char>, x: Seq<char>)
    ensures
        has_infix(t + label + value + ",\n"@, line(label, value)),
        has_infix(t, x) ==> has_infix(t + label + value + ",\n"@, x),
{
    let l = line(label, value);
    assert(t + label + value + ",\n"@ =~= t + l);
    lemma_stays(t, l, x);
}

/// What is told of a package stands in the text with all its parts: its name, its version as
/// written and in normal form, its reference, its type, where it is, its aliases, whether it is
/// for development, and what it replaces and provides.
pub proof fn law_entry_has_all_its_parts(out: Seq<char>, name: Seq<char>, e: EntryView)
    ensures
        has_infix(entry_text(out, name, e), php_literal(name) + " => array(\n"@),
        e.pretty_version matches Some(v) ==> has_infix(
            entry_text(out, name, e),
            line("            'pretty_version' => "@, php_literal(v)),
        ),
        e.version matches Some(v) ==> has_infix(
            entry_text(out, name, e),
            line("            'version' => "@, php_literal(v)),
        ),
        e.version is Some ==> has_infix(
            entry_text(out, name, e),
            line("            'reference' => "@, php_optional(e.reference)),
        ),
        e.package_type matches Some(v) ==> has_infix(
            entry_text(out, name, e),
            line("            'type' => "@, php_literal(v)),
        ),
        e.install_path matches Some(v) ==> has_infix(
            entry_text(out, name, e),
            line("            'install_path' => "@, v),
        ),
        e.aliases.len() > 0 ==> has_infix(
            entry_text(out, name, e),
            line("            'aliases' => "@, php_array(e.aliases)),
        ),
        has_infix(
            entry_text(out, name, e),
            line(
                "            'dev_requirement' => "@,
                if e.dev_requirement {
                    "true"@
                } else {
                    "false"@
                },
            ),
        ),
        e.replaced.len() > 0 ==> has_infix(
            entry_text(out, name, e),
            line("            'replaced' => "@, php_array(e.replaced)),
        ),
        e.provided.len() > 0 ==> has_infix(
            entry_text(out, name, e),
            line("            'provided' => "@, php_array(e.provided)),
        ),
        has_infix(entry_text(out, name, e), out),
{
    let title = php_literal(name) + " => array(\n"@;
    let t0 = out + "        "@ + php_literal(name) + " => array(\n"@;
    assert(t0 =~= (out + "        "@) + title);
    lemma_stays(out + "        "@, title, title);
    lemma_stays(out, "        "@, out);
    lemma_stays(out + "        "@, title, out);
    let pretty = e.pretty_version;
    let l1 = match pretty {
        Some(v) => line("            'pretty_version' => "@, php_literal(v)),
        None => Seq::empty(),
    };
    let t1 = match pretty {
        Some(v) => t0 + "            'pretty_version' => "@ + php_literal(v) + ",\n"@,
        None => t0,
    };
    if let Some(v) = pretty {
        lemma_line(t0, "            'pretty_version' => "@, php_literal(v), title);
        lemma_line(t0, "            'pretty_version' => "@, php_literal(v), out);
    }
    let l2 = match e.version {
        Some(v) => line("            'version' => "@, php_literal(v)),
        None => Seq::empty(),
    };
    let t2 = match e.version {
        Some(v) => t1 + "            'version' => "@ + php_literal(v) + ",\n"@,
        None => t1,
    };
    if let Some(v) = e.version {
        lemma_line(t1, "            'version' => "@, php_literal(v), title);
        lemma_line(t1, "            'version' => "@, php_literal(v), out);
        lemma_line(t1, "            'version' => "@, php_literal(v), l1);
    }
    let l3 = line("            'reference' => "@, php_optional(e.reference));
    let t3 = if e.pretty_version is Some || e.version is Some {
        t2 + "            'reference' => "@ + php_optional(e.reference) + ",\n"@
    } else {
        t2
    };
    lemma_four(t2, "            'reference' => "@, php_optional(e.reference), title, out, l1, l2);
    let l4 = match e.package_type {
        Some(v) => line("            'type' => "@, php_literal(v)),
        None => Seq::empty(),
    };
    let t4 = match e.package_type {
        Some(v) => t3 + "            'type' => "@ + php_literal(v) + ",\n"@,
        None => t3,
    };
    if let Some(v) = e.package_type {
        lemma_four(t3, "            'type' => "@, php_literal(v), title, out, l1, l2);
        lemma_line(t3, "            'type' => "@, php_literal(v), l3);
    }
    let l5 = match e.install_path {
        Some(v) => line("            'install_path' => "@, v),
        None => Seq::empty(),
    };
    let t5 = match e.install_path {
        Some(v) => t4 + "            'install_path' => "@ + v + ",\n"@,
        None => t4,
    };
    if let Some(v) = e.install_path {
        lemma_four(t4, "            'install_path' => "@, v, title, out, l1, l2);
        lemma_four(t4, "            'install_path' => "@, v, l3, l4, l3, l4);
    }
    let aliases = php_array(e.aliases);
    let l6 = line("            'aliases' => "@, aliases);
    let t6 = if e.aliases.len() > 0 || e.pretty_version is Some {
        t5 + "            'aliases' => "@ + aliases + ",\n"@
    } else {
        t5
    };
    lemma_four(t5, "            'aliases' => "@, aliases, title, out, l1, l2);
    lemma_four(t5, "            'aliases' => "@, aliases, l3, l4, l5, l5);
    let dev = if e.dev_requirement {
        "true"@
    } else {
        "false"@
    };
    let l7 = line("            'dev_requirement' => "@, dev);
    let t7 = t6 + "            'dev_requirement' => "@ + dev + ",\n"@;
    lemma_four(t6, "            'dev_requirement' => "@, dev, title, out, l1, l2);
    lemma_four(t6, "            'dev_requirement' => "@, dev, l3, l4, l5, l6);
    let replaced = php_array(e.replaced);
    let l8 = line("            'replaced' => "@, replaced);
    let t8 = if e.replaced.len() > 0 {
        t7 + "            'replaced' => "@ + replaced + ",\n"@
    } else {
        t7
    };
    lemma_four(t7, "            'replaced' => "@, replaced, title, out, l1, l2);
    lemma_four(t7, "            'replaced' => "@, replaced, l3, l4, l5, l6);
    lemma_line(t7, "            'replaced' => "@, replaced, l7);
    let provided = php_array(e.provided);
    let l9 = line("            'provided' => "@, provided);
    let t9 = if e.provided.len() > 0 {
        t8 + "            'provided' => "@ + provided + ",\n"@
    } else {
        t8
    };
    lemma_four(t8, "            'provided' => "@, provided, title, out, l1, l2);
    lemma_four(t8, "            'provided' => "@, provided, l3, l4, l5, l6);
    lemma_four(t8, "            'provided' => "@, provided, l7, l8, l7, l8);
    let end = "        ),\n"@;
    lemma_stays(t9, end, title);
    lemma_stays(t9, end, out);
    lemma_stays(t9, end, l1);
    lemma_stays(t9, end, l2);
    lemma_stays(t9, end, l3);
    lemma_stays(t9, end, l4);
    lemma_stays(t9, end, l5);
    lemma_stays(t9, end, l6);
    lemma_stays(t9, end, l7);
    lemma_stays(t9, end, l8);
    lemma_stays(t9, end, l9);
    assert(entry_text(out, name, e) == t9 + end);
}

proof fn lemma_four(
    t: Seq<char>,
    label: Seq<char>,
    value: Seq<char>,
    a: Seq<char>,
    b: Seq<char>,
    c: Seq<char>,
    d: Seq<char>,
)
    ensures
        has_infix(t + label + value + ",\n"@, line(label, value)),
        has_infix(t, a) ==> has_infix(t + label + value + ",\n"@, a),
        has_infix(t, b) ==> has_infix(t + label + value + ",\n"@, b),
        has_infix(t, c) ==> has_infix(t + label + value + ",\n"@, c),
        has_infix(t, d) ==> has_infix(t + label + value + ",\n"@, d),
{
    lemma_line(t, label, value, a);
    lemma_line(t, label, value, b);
    lemma_line(t, label, value, c);
    lemma_line(t, label, value, d);
}

/// What stands in a part of a text stands in the text.
proof fn lemma_within(whole: Seq<char>, part: Seq<char>, x: Seq<char>)
    requires
        has_infix(whole, part),
        has_infix(part, x),
    ensures
        has_infix(whole, x),
{
    let i = choose|i: int| #[trigger] crate::text::occurs_at(whole, part, i);
    let j = choose|j: int| #[trigger] crate::text::occurs_at(part, x, j);
    assert(whole.subrange(i + j, i + j + x.len()) =~= part.subrange(j, j + x.len()));
    assert(crate::text::occurs_at(whole, x, i + j));
}

proof fn lemma_entries(out: Seq<char>, v: Versions, n: int, k: int) -> (before: Seq<char>)
    requires
        0 <= k < n <= v.len(),
    ensures
        has_infix(entries_text(out, v, n), entry_text(before, v[k].0, v[k].1)),
    decreases n,
{
    let prior = entries_text(out, v, n - 1);
    let now = entry_text(prior, v[n - 1].0, v[n - 1].1);
    if k == n - 1 {
        lemma_infix_plus(now, now, now);
        prior
    } else {
        let before = lemma_entries(out, v, n - 1, k);
        law_entry_has_all_its_parts(prior, v[n - 1].0, v[n - 1].1);
        lemma_within(now, prior, entry_text(before, v[k].0, v[k].1));
        before
    }
}

/// Everything that is told stands in the text: the entry of every name, behind whatever stands in
/// front of it.
pub proof fn law_every_entry_is_in_the_text(v: Versions, r: RootView, k: int) -> (before: Seq<char>)
    requires
        0 <= k < v.len(),
    ensures
        has_infix(installed_text(v, r), entry_text(before, v[k].0, v[k].1)),
{
    let whole = installed_text(v, r);
    let head = "<?php return array(\n"@ + "    'root' => array(\n"@ + "        'name' => "@
        + php_literal(r.name) + ",\n"@ + "        'pretty_version' => "@ + php_literal(
        r.pretty_version,
    ) + ",\n"@ + "        'version' => "@ + php_literal(r.version) + ",\n"@
        + "        'reference' => "@ + php_optional(r.reference) + ",\n"@ + "        'type' => "@
        + php_literal(r.package_type) + ",\n"@
        + "        'install_path' => __DIR__ . '/../../',\n"@ + "        'aliases' => "@
        + php_array(r.aliases) + ",\n"@ + "        'dev' => "@ + (if r.dev_mode {
        "true"@
    } else {
        "false"@
    }) + ",\n"@ + "    ),\n"@ + "    'versions' => array(\n"@;
    let before = lemma_entries(head, v, v.len() as int, k);
    let e = entries_text(head, v, v.len() as int);
    let x = entry_text(before, v[k].0, v[k].1);
    lemma_stays(e, "    ),\n"@, x);
    lemma_stays(e + "    ),\n"@, ");\n"@, x);
    before
}

} // verus!
