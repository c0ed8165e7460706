//! What is installed, for PHP code to ask: `installed.php` and `installed.json`.
use vstd::prelude::*;
use vstd::string::*;

use crate::autoload::order::targets;
use crate::autoload::types::{PackageAutoload, RootPackageInfo};
use crate::links::{link_count, link_entry, links, Pairs};
use crate::lock::{copy_option, copy_strings, opt};
use crate::names::{is_platform_package, platform};
use crate::sort::{sort_texts, texts_sorted};
use crate::sorted::{find_place, is_at, is_present, names_of, place};
use crate::text::{
    join, joined, lemma_views_push, replace, replaced, str_equal, views,
};

verus! {

/// What is told of one package.
#[derive(Debug)]
pub struct VersionEntry {
    pub pretty_version: Option<String>,
    pub version: Option<String>,
    pub reference: Option<String>,
    pub package_type: Option<String>,
    pub install_path: Option<String>,
    pub aliases: Vec<String>,
    pub dev_requirement: bool,
    pub replaced: Vec<String>,
    pub provided: Vec<String>,
}

/// What is told of one package.
pub struct EntryView {
    pub pretty_version: Option<Seq<char>>,
    pub version: Option<Seq<char>>,
    pub reference: Option<Seq<char>>,
    pub package_type: Option<Seq<char>>,
    pub install_path: Option<Seq<char>>,
    pub aliases: Seq<Seq<char>>,
    pub dev_requirement: bool,
    pub replaced: Seq<Seq<char>>,
    pub provided: Seq<Seq<char>>,
}

impl View for VersionEntry {
    type V = EntryView;

    open spec fn view(&self) -> EntryView {
        EntryView {
            pretty_version: opt(self.pretty_version),
            version: opt(self.version),
            reference: opt(self.reference),
            package_type: opt(self.package_type),
            install_path: opt(self.install_path),
            aliases: views(self.aliases@),
            dev_requirement: self.dev_requirement,
            replaced: views(self.replaced@),
            provided: views(self.provided@),
        }
    }
}

/// Packages by name, in the order of their names.
pub type Versions = Seq<(Seq<char>, EntryView)>;

/// What a list of packages holds.
pub open spec fn versions_view(v: Seq<(String, VersionEntry)>) -> Versions {
    v.map_values(|e: (String, VersionEntry)| (e.0@, e.1@))
}

/// The names of the packages.
pub open spec fn version_names(v: Versions) -> Seq<Seq<char>> {
    v.map_values(|e: (Seq<char>, EntryView)| e.0)
}

/// The list with an entry under a name, in place of the one it had.
pub open spec fn with_version(v: Versions, name: Seq<char>, entry: EntryView) -> Versions {
    let at = place(version_names(v), name);
    if is_present(version_names(v), name) {
        v.update(at, (name, entry))
    } else {
        v.insert(at, (name, entry))
    }
}

/// The entry under a name.
pub open spec fn version_under(v: Versions, name: Seq<char>) -> Option<EntryView> {
    if is_present(version_names(v), name) {
        Some(v[place(version_names(v), name)].1)
    } else {
        None
    }
}

fn put_version(v: &mut Vec<(String, VersionEntry)>, name: &str, entry: VersionEntry)
    ensures
        versions_view(final(v)@) == with_version(versions_view(old(v)@), name@, entry@),
{
    let ghost s = versions_view(v@);
    assert(version_names(s) =~= names_of(v@));
    let at: usize = find_place(v, name);
    if is_at(v, at, name) {
        v[at] = (name.to_owned(), entry);
    } else {
        v.insert(at, (name.to_owned(), entry));
    }
    assert(versions_view(v@) =~= with_version(s, name@, entry@));
}

/// What is told of an installed package.
pub open spec fn installed_entry(p: PackageAutoload) -> EntryView {
    EntryView {
        pretty_version: opt(p.pretty_version),
        version: opt(p.version),
        reference: opt(p.reference),
        package_type: Some(p.package_type@),
        install_path: if p.without_files() {
            None
        } else {
            Some("__DIR__ . '/../"@ + p.install_path@ + "'"@)
        },
        aliases: views(p.aliases@),
        dev_requirement: p.dev_requirement,
        replaced: Seq::empty(),
        provided: Seq::empty(),
    }
}

/// What is told of a name that only other packages stand in for.
pub open spec fn virtual_entry(dev: bool) -> EntryView {
    EntryView {
        pretty_version: None,
        version: None,
        reference: None,
        package_type: None,
        install_path: None,
        aliases: Seq::empty(),
        dev_requirement: dev,
        replaced: Seq::empty(),
        provided: Seq::empty(),
    }
}

/// The first `n` packages.
pub open spec fn installed_versions(packages: Seq<PackageAutoload>, n: int) -> Versions
    decreases n,
{
    if n <= 0 || n > packages.len() {
        Seq::empty()
    } else {
        with_version(
            installed_versions(packages, n - 1),
            packages[n - 1].name@,
            installed_entry(packages[n - 1]),
        )
    }
}

/// The version that a package stands in for: its own for `self.version`.
pub open spec fn stood_for(p: PackageAutoload, constraint: Seq<char>) -> Seq<char> {
    if constraint == "self.version"@ {
        match p.pretty_version {
            Some(v) => v@,
            None => Seq::empty(),
        }
    } else {
        constraint
    }
}

/// The texts with one more, unless it is there.
pub open spec fn with_text(s: Seq<Seq<char>>, t: Seq<char>) -> Seq<Seq<char>> {
    if s.contains(t) {
        s
    } else {
        s.push(t)
    }
}

/// An entry that a package stands in for: replaced where `replaces`, else provided.
/// What a package for production stands in for is not for development only.
pub open spec fn stood_in(e: EntryView, version: Seq<char>, replaces: bool, dev: bool) -> EntryView {
    EntryView {
        dev_requirement: e.dev_requirement && dev,
        replaced: if replaces {
            with_text(e.replaced, version)
        } else {
            e.replaced
        },
        provided: if replaces {
            e.provided
        } else {
            with_text(e.provided, version)
        },
        ..e
    }
}

/// The list once a package stands in for the first `n` of the names.
pub open spec fn with_stand_ins(
    v: Versions,
    p: PackageAutoload,
    names: Pairs,
    n: int,
    replaces: bool,
) -> Versions
    decreases n,
{
    if n <= 0 || n > names.len() {
        v
    } else {
        let t = with_stand_ins(v, p, names, n - 1, replaces);
        let (name, constraint) = names[n - 1];
        if platform(name) {
            t
        } else {
            let present = match version_under(t, name) {
                Some(e) => e,
                None => virtual_entry(p.dev_requirement),
            };
            with_version(
                t,
                name,
                stood_in(present, stood_for(p, constraint), replaces, p.dev_requirement),
            )
        }
    }
}

/// The list with what the first `n` packages replace and provide.
pub open spec fn all_stand_ins(v: Versions, packages: Seq<PackageAutoload>, n: int) -> Versions
    decreases n,
{
    if n <= 0 || n > packages.len() {
        v
    } else {
        let p = packages[n - 1];
        let replaces = links(p.replaces);
        let provides = links(p.provides);
        let t = with_stand_ins(
            all_stand_ins(v, packages, n - 1),
            p,
            replaces,
            replaces.len() as int,
            true,
        );
        with_stand_ins(t, p, provides, provides.len() as int, false)
    }
}

/// An entry with its lists in order.
pub open spec fn tidied(e: EntryView) -> EntryView {
    EntryView {
        aliases: texts_sorted(e.aliases),
        replaced: texts_sorted(e.replaced),
        provided: texts_sorted(e.provided),
        ..e
    }
}

/// The project itself, or what stands for one that is not known.
pub struct RootView {
    pub name: Seq<char>,
    pub pretty_version: Seq<char>,
    pub version: Seq<char>,
    pub reference: Option<Seq<char>>,
    pub package_type: Seq<char>,
    pub aliases: Seq<Seq<char>>,
    pub dev_mode: bool,
}

pub open spec fn root_view(root: Option<&RootPackageInfo>) -> RootView {
    match root {
        Some(r) => RootView {
            name: r.name@,
            pretty_version: r.pretty_version@,
            version: r.version@,
            reference: opt(r.reference),
            package_type: r.package_type@,
            aliases: views(r.aliases@),
            dev_mode: r.dev_mode,
        },
        None => RootView {
            name: "__root__"@,
            pretty_version: "dev-main"@,
            version: "dev-main"@,
            reference: None,
            package_type: "library"@,
            aliases: Seq::empty(),
            dev_mode: true,
        },
    }
}

/// What is told of the project.
pub open spec fn root_entry(r: RootView) -> EntryView {
    EntryView {
        pretty_version: Some(r.pretty_version),
        version: Some(r.version),
        reference: r.reference,
        package_type: Some(r.package_type),
        install_path: Some("__DIR__ . '/../../'"@),
        aliases: r.aliases,
        dev_requirement: false,
        replaced: Seq::empty(),
        provided: Seq::empty(),
    }
}

/// Everything that is told, by name.
pub open spec fn all_versions(packages: Seq<PackageAutoload>, root: RootView) -> Versions {
    let installed = installed_versions(packages, packages.len() as int);
    let known = all_stand_ins(installed, packages, packages.len() as int);
    let tidy = known.map_values(|e: (Seq<char>, EntryView)| (e.0, tidied(e.1)));
    with_version(tidy, root.name, root_entry(root))
}

// ---------------------------------------------------------------------------
// The text
// ---------------------------------------------------------------------------
/// A text as a PHP literal.
pub open spec fn php_literal(s: Seq<char>) -> Seq<char> {
    "'"@ + replaced(replaced(s, "\\"@, "\\\\"@), "'"@, "\\'"@) + "'"@
}

/// A text as a PHP literal, or `NULL`.
pub open spec fn php_optional(s: Option<Seq<char>>) -> Seq<char> {
    match s {
        Some(t) => php_literal(t),
        None => "NULL"@,
    }
}

/// Texts as a PHP array.
pub open spec fn php_array(s: Seq<Seq<char>>) -> Seq<char> {
    if s.len() == 0 {
        "array()"@
    } else {
        "array("@ + joined(s.map_values(|t: Seq<char>| php_literal(t)), ", "@) + ")"@
    }
}

/// A text as a PHP literal.
pub fn php_string(s: &str) -> (r: String)
    ensures
        r@ == php_literal(s@),
{
    proof {
        reveal_strlit("\\");
        reveal_strlit("'");
    }
    let slashed = replace(s, "\\", "\\\\");
    let quoted = replace(slashed.as_str(), "'", "\\'");
    "'".to_owned().concat(quoted.as_str()).concat("'")
}

/// A text as a PHP literal, or `NULL`.
pub fn php_value_or_null(s: &Option<String>) -> (r: String)
    ensures
        r@ == php_optional(opt(*s)),
{
    match s {
        Some(t) => php_string(t.as_str()),
        None => "NULL".to_owned(),
    }
}

/// Texts as a PHP array.
pub fn php_string_array(v: &Vec<String>) -> (r: String)
    ensures
        r@ == php_array(views(v@)),
{
    assert(views(v@).len() == v.len());
    if v.len() == 0 {
        return "array()".to_owned();
    }
    let ghost want = views(v@).map_values(|t: Seq<char>| php_literal(t));
    let mut items: Vec<String> = Vec::new();
    let mut i: usize = 0;
    while i < v.len()
        invariant
            i <= v.len(),
            want == views(v@).map_values(|t: Seq<char>| php_literal(t)),
            views(items@) == want.take(i as int),
        decreases v.len() - i,
    {
        let one = php_string(v[i].as_str());
        proof {
            lemma_views_push(items@, one);
        }
        items.push(one);
        i += 1;
        assert(views(items@) =~= want.take(i as int));
    }
    assert(views(items@) =~= want);
    "array(".to_owned().concat(join(items.as_slice(), ", ").as_str()).concat(")")
}

/// The text followed by the entry of one package.
pub open spec fn entry_text(out: Seq<char>, name: Seq<char>, e: EntryView) -> Seq<char> {
    let t = out + "        "@ + php_literal(name) + " => array(\n"@;
    let t = match e.pretty_version {
        Some(v) => t + "            'pretty_version' => "@ + php_literal(v) + ",\n"@,
        None => t,
    };
    let t = match e.version {
        Some(v) => t + "            'version' => "@ + php_literal(v) + ",\n"@,
        None => t,
    };
    let t = if e.pretty_version is Some || e.version is Some {
        t + "            'reference' => "@ + php_optional(e.reference) + ",\n"@
    } else {
        t
    };
    let t = match e.package_type {
        Some(v) => t + "            'type' => "@ + php_literal(v) + ",\n"@,
        None => t,
    };
    let t = match e.install_path {
        Some(v) => t + "            'install_path' => "@ + v + ",\n"@,
        None => t,
    };
    let t = if e.aliases.len() > 0 || e.pretty_version is Some {
        t + "            'aliases' => "@ + php_array(e.aliases) + ",\n"@
    } else {
        t
    };
    let t = t + "            'dev_requirement' => "@ + (if e.dev_requirement {
        "true"@
    } else {
        "false"@
    }) + ",\n"@;
    let t = if e.replaced.len() > 0 {
        t + "            'replaced' => "@ + php_array(e.replaced) + ",\n"@
    } else {
        t
    };
    let t = if e.provided.len() > 0 {
        t + "            'provided' => "@ + php_array(e.provided) + ",\n"@
    } else {
        t
    };
    t + "        ),\n"@
}

/// The text followed by the entries of the first `n` packages.
pub open spec fn entries_text(out: Seq<char>, v: Versions, n: int) -> Seq<char>
    decreases n,
{
    if n <= 0 || n > v.len() {
        out
    } else {
        entry_text(entries_text(out, v, n - 1), v[n - 1].0, v[n - 1].1)
    }
}

/// `vendor/composer/installed.php` for a list of packages and the project.
pub open spec fn installed_text(v: Versions, r: RootView) -> Seq<char> {
    let head = "<?php return array(\n"@ + "    'root' => array(\n"@ + "        'name' => "@
        + php_literal(r.name) + ",\n"@ + "        'pretty_version' => "@ + php_literal(
        r.pretty_version,
    ) + ",\n"@ + "        'version' => "@ + php_literal(r.version) + ",\n"@
        + "        'reference' => "@ + php_optional(r.reference) + ",\n"@ + "        'type' => "@
        + php_literal(r.package_type) + ",\n"@
        + "        'install_path' => __DIR__ . '/../../',\n"@ + "        'aliases' => "@
        + php_array(r.aliases) + ",\n"@ + "        'dev' => "@ + (if r.dev_mode {
        "true"@
    } else {
        "false"@
    }) + ",\n"@ + "    ),\n"@ + "    'versions' => array(\n"@;
    entries_text(head, v, v.len() as int) + "    ),\n"@ + ");\n"@
}

/// `vendor/composer/installed.php`.
pub open spec fn installed_php(packages: Seq<PackageAutoload>, root: Option<&RootPackageInfo>) -> Seq<
    char,
> {
    let r = root_view(root);
    installed_text(all_versions(packages, r), r)
}

fn write_entry(out: &mut String, name: &str, e: &VersionEntry)
    ensures
        final(out)@ == entry_text(old(out)@, name@, e@),
{
    out.append("        ");
    out.append(php_string(name).as_str());
    out.append(" => array(\n");
    if let Some(v) = &e.pretty_version {
        out.append("            'pretty_version' => ");
        out.append(php_string(v.as_str()).as_str());
        out.append(",\n");
    }
    if let Some(v) = &e.version {
        out.append("            'version' => ");
        out.append(php_string(v.as_str()).as_str());
        out.append(",\n");
    }
    if e.pretty_version.is_some() || e.version.is_some() {
        out.append("            'reference' => ");
        out.append(php_value_or_null(&e.reference).as_str());
        out.append(",\n");
    }
    if let Some(v) = &e.package_type {
        out.append("            'type' => ");
        out.append(php_string(v.as_str()).as_str());
        out.append(",\n");
    }
    if let Some(v) = &e.install_path {
        out.append("            'install_path' => ");
        out.append(v.as_str());
        out.append(",\n");
    }
    assert(e@.aliases.len() == e.aliases.len());
    assert(e@.replaced.len() == e.replaced.len());
    assert(e@.provided.len() == e.provided.len());
    if e.aliases.len() > 0 || e.pretty_version.is_some() {
        out.append("            'aliases' => ");
        out.append(php_string_array(&e.aliases).as_str());
        out.append(",\n");
    }
    out.append("            'dev_requirement' => ");
    out.append(
        if e.dev_requirement {
            "true"
        } else {
            "false"
        },
    );
    out.append(",\n");
    if e.replaced.len() > 0 {
        out.append("            'replaced' => ");
        out.append(php_string_array(&e.replaced).as_str());
        out.append(",\n");
    }
    if e.provided.len() > 0 {
        out.append("            'provided' => ");
        out.append(php_string_array(&e.provided).as_str());
        out.append(",\n");
    }
    out.append("        ),\n");
}

// ---------------------------------------------------------------------------
// Building the list
// ---------------------------------------------------------------------------
fn entry_of(p: &PackageAutoload) -> (r: VersionEntry)
    ensures
        r@ == installed_entry(*p),
{
    let install_path = if p.is_metapackage() {
        None
    } else {
        Some("__DIR__ . '/../".to_owned().concat(p.install_path.as_str()).concat("'"))
    };
    let r = VersionEntry {
        pretty_version: copy_option(&p.pretty_version),
        version: copy_option(&p.version),
        reference: copy_option(&p.reference),
        package_type: Some(p.package_type.clone()),
        install_path,
        aliases: copy_strings(&p.aliases),
        dev_requirement: p.dev_requirement,
        replaced: Vec::new(),
        provided: Vec::new(),
    };
    assert(r@.replaced =~= Seq::empty());
    assert(r@.provided =~= Seq::empty());
    r
}

fn add_text(v: &mut Vec<String>, t: String)
    ensures
        views(final(v)@) == with_text(views(old(v)@), t@),
{
    let ghost s = views(v@);
    let mut i: usize = 0;
    while i < v.len()
        invariant
            i <= v.len(),
            s == views(v@),
            forall|k: int| 0 <= k < i ==> s[k] != t@,
        decreases v.len() - i,
    {
        assert(s[i as int] == v@[i as int]@);
        if str_equal(v[i].as_str(), t.as_str()) {
            assert(s.contains(t@));
            return;
        }
        i += 1;
    }
    proof {
        lemma_views_push(v@, t);
    }
    v.push(t);
}

fn version_stood_for(p: &PackageAutoload, constraint: &str) -> (r: String)
    ensures
        r@ == stood_for(*p, constraint@),
{
    if str_equal(constraint, "self.version") {
        match &p.pretty_version {
            Some(v) => v.clone(),
            None => String::new(),
        }
    } else {
        constraint.to_owned()
    }
}

fn copy_entry(e: &VersionEntry) -> (r: VersionEntry)
    ensures
        r@ == e@,
{
    VersionEntry {
        pretty_version: copy_option(&e.pretty_version),
        version: copy_option(&e.version),
        reference: copy_option(&e.reference),
        package_type: copy_option(&e.package_type),
        install_path: copy_option(&e.install_path),
        aliases: copy_strings(&e.aliases),
        dev_requirement: e.dev_requirement,
        replaced: copy_strings(&e.replaced),
        provided: copy_strings(&e.provided),
    }
}

fn nobody(dev: bool) -> (r: VersionEntry)
    ensures
        r@ == virtual_entry(dev),
{
    let r = VersionEntry {
        pretty_version: None,
        version: None,
        reference: None,
        package_type: None,
        install_path: None,
        aliases: Vec::new(),
        dev_requirement: dev,
        replaced: Vec::new(),
        provided: Vec::new(),
    };
    assert(r@.aliases =~= Seq::empty());
    assert(r@.replaced =~= Seq::empty());
    assert(r@.provided =~= Seq::empty());
    r
}

fn stand_in(
    v: &mut Vec<(String, VersionEntry)>,
    p: &PackageAutoload,
    m: &indexmap::IndexMap<String, String>,
    replaces: bool,
)
    ensures
        versions_view(final(v)@) == with_stand_ins(
            versions_view(old(v)@),
            *p,
            links(*m),
            links(*m).len() as int,
            replaces,
        ),
{
    let ghost start = versions_view(v@);
    let ghost names = links(*m);
    let n: usize = link_count(m);
    let mut i: usize = 0;
    while i < n
        invariant
            i <= n == names.len(),
            names == links(*m),
            versions_view(v@) == with_stand_ins(start, *p, names, i as int, replaces),
        decreases n - i,
    {
        if let Some((name, constraint)) = link_entry(m, i) {
            if !is_platform_package(name) {
                let version = version_stood_for(p, constraint);
                assert(version_names(versions_view(v@)) =~= names_of(v@));
                let at: usize = find_place(v, name);
                let mut e = if is_at(v, at, name) {
                    assert(versions_view(v@)[at as int].1 == v@[at as int].1@);
                    copy_entry(&v[at].1)
                } else {
                    nobody(p.dev_requirement)
                };
                if replaces {
                    add_text(&mut e.replaced, version);
                } else {
                    add_text(&mut e.provided, version);
                }
                if !p.dev_requirement {
                    e.dev_requirement = false;
                }
                put_version(v, name, e);
            }
        }
        i += 1;
    }
}

fn tidy(v: &Vec<(String, VersionEntry)>) -> (r: Vec<(String, VersionEntry)>)
    ensures
        versions_view(r@) == versions_view(v@).map_values(
            |e: (Seq<char>, EntryView)| (e.0, tidied(e.1)),
        ),
{
    let ghost f = |e: (Seq<char>, EntryView)| (e.0, tidied(e.1));
    let ghost want = versions_view(v@).map_values(f);
    let mut out: Vec<(String, VersionEntry)> = Vec::new();
    let mut i: usize = 0;
    while i < v.len()
        invariant
            i <= v.len(),
            out.len() == i,
            f == (|e: (Seq<char>, EntryView)| (e.0, tidied(e.1))),
            want == versions_view(v@).map_values(f),
            forall|k: int|
                0 <= k < i ==> ((#[trigger] out@[k]).0@, out@[k].1@) == want[k],
        decreases v.len() - i,
    {
        let e = &v[i].1;
        let one = VersionEntry {
            pretty_version: copy_option(&e.pretty_version),
            version: copy_option(&e.version),
            reference: copy_option(&e.reference),
            package_type: copy_option(&e.package_type),
            install_path: copy_option(&e.install_path),
            aliases: sort_texts(&e.aliases),
            dev_requirement: e.dev_requirement,
            replaced: sort_texts(&e.replaced),
            provided: sort_texts(&e.provided),
        };
        assert(one@ == tidied(e@));
        out.push((v[i].0.clone(), one));
        i += 1;
    }
    assert(versions_view(out@) =~= want);
    out
}

fn root_or_default(root: Option<&RootPackageInfo>) -> (r: RootPackageInfo)
    ensures
        root_view(Some(&r)) == root_view(root),
{
    match root {
        Some(p) => RootPackageInfo {
            name: p.name.clone(),
            pretty_version: p.pretty_version.clone(),
            version: p.version.clone(),
            reference: copy_option(&p.reference),
            package_type: p.package_type.clone(),
            aliases: copy_strings(&p.aliases),
            dev_mode: p.dev_mode,
        },
        None => {
            let none: Vec<String> = Vec::new();
            assert(views(none@) =~= Seq::empty());
            RootPackageInfo {
                name: "__root__".to_owned(),
                pretty_version: "dev-main".to_owned(),
                version: "dev-main".to_owned(),
                reference: None,
                package_type: "library".to_owned(),
                aliases: none,
                dev_mode: true,
            }
        },
    }
}

fn entry_of_root(p: &RootPackageInfo) -> (r: VersionEntry)
    ensures
        r@ == root_entry(root_view(Some(p))),
{
    let r = VersionEntry {
        pretty_version: Some(p.pretty_version.clone()),
        version: Some(p.version.clone()),
        reference: copy_option(&p.reference),
        package_type: Some(p.package_type.clone()),
        install_path: Some("__DIR__ . '/../../'".to_owned()),
        aliases: copy_strings(&p.aliases),
        dev_requirement: false,
        replaced: Vec::new(),
        provided: Vec::new(),
    };
    assert(r@.replaced =~= Seq::empty());
    assert(r@.provided =~= Seq::empty());
    r
}

/// `vendor/composer/installed.php`: the packages, the names that they replace and
/// provide, and the project.
pub fn generate_installed_php(packages: &[&PackageAutoload], root: Option<&RootPackageInfo>) -> (r:
    String)
    ensures
        r@ == installed_php(targets(packages@), root),
{
    let ghost all = targets(packages@);
    let mut v: Vec<(String, VersionEntry)> = Vec::new();
    let mut i: usize = 0;
    assert(versions_view(v@) =~= installed_versions(all, 0));
    while i < packages.len()
        invariant
            i <= packages.len(),
            all == targets(packages@),
            versions_view(v@) == installed_versions(all, i as int),
        decreases packages.len() - i,
    {
        assert(all[i as int] == *packages@[i as int]);
        put_version(&mut v, packages[i].name.as_str(), entry_of(packages[i]));
        i += 1;
    }
    let ghost installed = versions_view(v@);
    let mut j: usize = 0;
    while j < packages.len()
        invariant
            j <= packages.len(),
            all == targets(packages@),
            versions_view(v@) == all_stand_ins(installed, all, j as int),
        decreases packages.len() - j,
    {
        assert(all[j as int] == *packages@[j as int]);
        stand_in(&mut v, packages[j], &packages[j].replaces, true);
        stand_in(&mut v, packages[j], &packages[j].provides, false);
        j += 1;
    }
    let mut v = tidy(&v);
    let r = root_or_default(root);
    put_version(&mut v, r.name.as_str(), entry_of_root(&r));
    let mut out = "<?php return array(\n".to_owned();
    out.append("    'root' => array(\n");
    out.append("        'name' => ");
    out.append(php_string(r.name.as_str()).as_str());
    out.append(",\n");
    out.append("        'pretty_version' => ");
    out.append(php_string(r.pretty_version.as_str()).as_str());
    out.append(",\n");
    out.append("        'version' => ");
    out.append(php_string(r.version.as_str()).as_str());
    out.append(",\n");
    out.append("        'reference' => ");
    out.append(php_value_or_null(&r.reference).as_str());
    out.append(",\n");
    out.append("        'type' => ");
    out.append(php_string(r.package_type.as_str()).as_str());
    out.append(",\n");
    out.append("        'install_path' => __DIR__ . '/../../',\n");
    out.append("        'aliases' => ");
    out.append(php_string_array(&r.aliases).as_str());
    out.append(",\n");
    out.append("        'dev' => ");
    out.append(
        if r.dev_mode {
            "true"
        } else {
            "false"
        },
    );
    out.append(",\n");
    out.append("    ),\n");
    out.append("    'versions' => array(\n");
    let ghost head = out@;
    let ghost told = versions_view(v@);
    let mut k: usize = 0;
    while k < v.len()
        invariant
            k <= v.len(),
            told == versions_view(v@),
            out@ == entries_text(head, told, k as int),
        decreases v.len() - k,
    {
        assert(told[k as int] == (v@[k as int].0@, v@[k as int].1@));
        write_entry(&mut out, v[k].0.as_str(), &v[k].1);
        k += 1;
    }
    assert(told.len() == v.len());
    out.append("    ),\n");
    out.append(");\n");
    out
}

} // verus!
