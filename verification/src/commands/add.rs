//! The commands `add` and `remove`: the requirements of a project.
use vstd::prelude::*;
use vstd::string::*;

use indexmap::IndexMap;

use crate::error::{refuse, refuse_about, Refusal};
use crate::installer::flow::UpdateOptions;
use crate::links::{has_link, links, remove_link, set_link, with_link, without_link, Pairs};
use crate::lock::opt;
use crate::package::Package;
use crate::text::{
    chars_of, halves, is_digit, join, joined, lemma_views_push, pieces, split, split_once,
    str_equal, str_views, views,
};

verus! {

/// What the user asks of `add`.
#[derive(Debug)]
pub struct AddArgs {
    /// Packages, with constraints behind colons or without.
    pub packages: Vec<String>,
    /// For development.
    pub dev: bool,
    pub prefer_source: bool,
    pub prefer_dist: bool,
    pub dry_run: bool,
    pub no_autoloader: bool,
    pub no_scripts: bool,
    pub no_plugins: bool,
    /// Only write the manifest.
    pub no_update: bool,
    pub optimize_autoloader: bool,
    pub working_dir: String,
}

/// What the user asks of `remove`.
#[derive(Debug)]
pub struct RemoveArgs {
    pub packages: Vec<String>,
    /// From those for development only.
    pub dev: bool,
    pub dry_run: bool,
    /// Only write the manifest.
    pub no_update: bool,
    pub no_autoloader: bool,
    pub no_scripts: bool,
    pub no_plugins: bool,
    pub optimize_autoloader: bool,
    pub working_dir: String,
}

// ---------------------------------------------------------------------------
// What is to be added
// ---------------------------------------------------------------------------
/// A name, and the constraint behind a colon, where there is one.
pub open spec fn spec_parts(s: Seq<char>) -> (Seq<char>, Option<Seq<char>>) {
    match halves(s, ':') {
        Some((name, constraint)) => (name, Some(constraint)),
        None => (s, None),
    }
}

/// A name, and the constraint behind a colon, where there is one.
pub fn parse_package_spec(s: &str) -> (r: (String, Option<String>))
    ensures
        (r.0@, opt(r.1)) == spec_parts(s@),
{
    match split_once(s, ':') {
        Some(p) => (p.0.to_owned(), Some(p.1.to_owned())),
        None => (s.to_owned(), None),
    }
}

/// What is to be added: the name, and the constraint where one is given. A name or a
/// constraint that is there and empty is refused.
pub open spec fn wanted_of(s: Seq<char>) -> Result<(Seq<char>, Option<Seq<char>>), Seq<char>> {
    let p = spec_parts(s);
    if p.0.len() == 0 {
        Err("Package name cannot be empty"@)
    } else if p.1 matches Some(c) && c.len() == 0 {
        Err("Version constraint for "@ + p.0 + " cannot be empty"@)
    } else {
        Ok(p)
    }
}

/// What is to be added.
pub fn wanted_package(s: &str) -> (r: Result<(String, Option<String>), Refusal>)
    ensures
        match r {
            Ok(p) => wanted_of(s@) == Ok::<(Seq<char>, Option<Seq<char>>), Seq<char>>(
                (p.0@, opt(p.1)),
            ),
            Err(e) => wanted_of(s@) == Err::<(Seq<char>, Option<Seq<char>>), Seq<char>>(e@),
        },
{
    let (name, constraint) = parse_package_spec(s);
    if name.as_str().is_empty() {
        return refuse("Package name cannot be empty");
    }
    if let Some(c) = &constraint {
        if c.as_str().is_empty() {
            return refuse_about("Version constraint for ", name.as_str(), " cannot be empty");
        }
    }
    Ok((name, constraint))
}

/// What is said where no version of a package is found.
pub fn no_match(name: &str) -> (r: String)
    ensures
        r@ == "Could not find a matching version of package "@ + name@,
{
    "Could not find a matching version of package ".to_owned().concat(name)
}

// ---------------------------------------------------------------------------
// Which version is recommended
// ---------------------------------------------------------------------------
/// No priority is less than that at `at`.
pub open spec fn is_least(priorities: Seq<u8>, at: int) -> bool {
    0 <= at < priorities.len() && forall|i: int|
        0 <= i < priorities.len() ==> priorities[at] <= #[trigger] priorities[i]
}

/// The package is among those of the best stability.
pub open spec fn is_eligible(priorities: Seq<u8>, i: int) -> bool {
    is_least(priorities, i)
}

/// The positions of the packages of the best stability, where a lower number is better.
pub fn eligible_packages(priorities: &Vec<u8>) -> (r: Vec<usize>)
    ensures
        forall|k: int| 0 <= k < r@.len() ==> is_eligible(priorities@, #[trigger] r@[k] as int),
        forall|k: int, l: int| 0 <= k < l < r@.len() ==> #[trigger] r@[k] < #[trigger] r@[l],
        forall|i: int| #[trigger]
            is_eligible(priorities@, i) ==> exists|k: int|
                0 <= k < r@.len() && #[trigger] r@[k] == i,
        r@.len() > 0 <==> priorities@.len() > 0,
{
    let mut out: Vec<usize> = Vec::new();
    if priorities.len() == 0 {
        return out;
    }
    let mut least: u8 = priorities[0];
    let ghost mut at: int = 0;
    let mut i: usize = 1;
    while i < priorities.len()
        invariant
            1 <= i <= priorities.len(),
            0 <= at < i,
            least == priorities@[at],
            forall|k: int| 0 <= k < i ==> least <= #[trigger] priorities@[k],
        decreases priorities.len() - i,
    {
        if priorities[i] < least {
            least = priorities[i];
            proof {
                at = i as int;
            }
        }
        i += 1;
    }
    let mut j: usize = 0;
    while j < priorities.len()
        invariant
            j <= priorities.len(),
            0 <= at < priorities.len(),
            least == priorities@[at],
            forall|k: int| 0 <= k < priorities@.len() ==> least <= #[trigger] priorities@[k],
            forall|k: int|
                0 <= k < out@.len() ==> is_eligible(priorities@, #[trigger] out@[k] as int)
                    && out@[k] < j,
            forall|k: int, l: int|
                0 <= k < l < out@.len() ==> #[trigger] out@[k] < #[trigger] out@[l],
            forall|m: int|
                m < j && #[trigger] is_eligible(priorities@, m) ==> exists|k: int|
                    0 <= k < out@.len() && #[trigger] out@[k] == m,
        decreases priorities.len() - j,
    {
        let ghost before = out@;
        if priorities[j] == least {
            out.push(j);
            assert(out@[before.len() as int] == j);
            assert forall|m: int| m < j + 1 && #[trigger] is_eligible(priorities@, m) implies exists|
                k: int,
            | 0 <= k < out@.len() && #[trigger] out@[k] == m by {
                if m < j {
                    let k = choose|k: int| 0 <= k < before.len() && #[trigger] before[k] == m;
                    assert(out@[k] == m);
                } else {
                    assert(out@[before.len() as int] == m);
                }
            }
        } else {
            assert(!is_eligible(priorities@, j as int)) by {
                assert(priorities@[at] < priorities@[j as int]);
            }
        }
        j += 1;
    }
    assert(is_eligible(priorities@, at));
    out
}

/// The package is of the best stability and has the version.
pub open spec fn is_recommended(
    priorities: Seq<u8>,
    versions: Seq<Seq<char>>,
    best: Seq<char>,
    i: int,
) -> bool {
    is_eligible(priorities, i) && versions[i] == best
}

/// The position of the first package of the best stability that has the best version.
pub fn select_recommended_package(priorities: &Vec<u8>, versions: &Vec<String>, best: &str) -> (r:
    Option<usize>)
    requires
        priorities@.len() == versions@.len(),
    ensures
        match r {
            Some(i) => is_recommended(priorities@, views(versions@), best@, i as int) && forall|
                k: int,
            |
                0 <= k < i ==> !#[trigger] is_recommended(
                    priorities@,
                    views(versions@),
                    best@,
                    k,
                ),
            None => forall|k: int|
                !#[trigger] is_recommended(priorities@, views(versions@), best@, k),
        },
{
    let eligible = eligible_packages(priorities);
    let ghost p = priorities@;
    let ghost v = views(versions@);
    let mut j: usize = 0;
    while j < eligible.len()
        invariant
            j <= eligible.len(),
            p == priorities@,
            v == views(versions@),
            p.len() == versions@.len(),
            forall|k: int|
                0 <= k < eligible@.len() ==> is_eligible(p, #[trigger] eligible@[k] as int),
            forall|k: int, l: int|
                0 <= k < l < eligible@.len() ==> #[trigger] eligible@[k] < #[trigger] eligible@[l],
            forall|i: int| #[trigger]
                is_eligible(p, i) ==> exists|k: int|
                    0 <= k < eligible@.len() && #[trigger] eligible@[k] == i,
            forall|k: int| 0 <= k < j ==> v[#[trigger] eligible@[k] as int] != best@,
        decreases eligible.len() - j,
    {
        let at: usize = eligible[j];
        assert(is_eligible(p, eligible@[j as int] as int));
        assert(v[at as int] == versions@[at as int]@);
        if str_equal(versions[at].as_str(), best) {
            assert forall|k: int| 0 <= k < at implies !#[trigger] is_recommended(
                p,
                v,
                best@,
                k,
            ) by {
                if is_eligible(p, k) {
                    let l = choose|l: int| 0 <= l < eligible@.len() && #[trigger] eligible@[l] == k;
                    if l >= j {
                        if l > j {
                            assert(eligible@[j as int] < eligible@[l]);
                        }
                    }
                }
            }
            return Some(at);
        }
        j += 1;
    }
    assert forall|k: int| !#[trigger] is_recommended(p, v, best@, k) by {
        if is_eligible(p, k) {
            let l = choose|l: int| 0 <= l < eligible@.len() && #[trigger] eligible@[l] == k;
            assert(v[eligible@[l] as int] != best@);
        }
    }
    None
}

/// Every character is a digit.
pub open spec fn digits_only(s: Seq<char>) -> bool {
    forall|i: int| 0 <= i < s.len() ==> is_digit(#[trigger] s[i])
}

/// The version is made of four parts that count as numbers.
pub open spec fn is_plain(parts: Seq<Seq<char>>) -> bool {
    parts.len() == 4 && digits_only(parts[0]) && parts[3].len() > 0 && is_digit(parts[3][0])
}

/// The constraint that is recommended for a package. `normal` is the normal form of its
/// version, and `stability` the word for it where it is not stable.
pub open spec fn recommended(p: Package, normal: Seq<char>, stability: Option<Seq<char>>) -> Seq<
    char,
> {
    let parts = pieces(normal, '.');
    if p.follows_branch() || !is_plain(parts) {
        p.shown_version()
    } else {
        let n = if parts[0] == "0"@ {
            3int
        } else {
            2
        };
        let c = "^"@ + joined(parts.take(n), "."@);
        match stability {
            Some(s) => c + "@"@ + s,
            None => c,
        }
    }
}

fn all_digits(s: &str) -> (r: bool)
    ensures
        r == digits_only(s@),
{
    let v = chars_of(s);
    let mut i: usize = 0;
    while i < v.len()
        invariant
            i <= v.len(),
            v@ == s@,
            forall|k: int| 0 <= k < i ==> is_digit(#[trigger] s@[k]),
        decreases v.len() - i,
    {
        if !('0' <= v[i] && v[i] <= '9') {
            assert(!is_digit(s@[i as int]));
            return false;
        }
        i += 1;
    }
    true
}

fn starts_with_digit(s: &str) -> (r: bool)
    ensures
        r == (s@.len() > 0 && is_digit(s@[0])),
{
    if s.is_empty() {
        return false;
    }
    let c = s.get_char(0);
    '0' <= c && c <= '9'
}

/// The constraint that is recommended for a package.
pub fn recommended_constraint(p: &Package, normal: &str, stability: Option<&str>) -> (r: String)
    ensures
        r@ == recommended(
            *p,
            normal@,
            match stability {
                Some(s) => Some(s@),
                None => None,
            },
        ),
{
    if p.is_dev() {
        return p.pretty_version().to_owned();
    }
    let parts = split(normal, '.');
    let ghost all = str_views(parts@);
    assert(all.len() == parts.len());
    if parts.len() != 4 {
        return p.pretty_version().to_owned();
    }
    assert(all[0] == parts@[0]@);
    assert(all[3] == parts@[3]@);
    if !all_digits(parts[0]) || !starts_with_digit(parts[3]) {
        return p.pretty_version().to_owned();
    }
    let n: usize = if str_equal(parts[0], "0") {
        3
    } else {
        2
    };
    let mut kept: Vec<String> = Vec::new();
    let mut i: usize = 0;
    assert(views(kept@) =~= all.take(0));
    while i < n
        invariant
            i <= n <= 3,
            parts.len() == 4,
            all == str_views(parts@),
            views(kept@) == all.take(i as int),
        decreases n - i,
    {
        let one = parts[i].to_owned();
        proof {
            lemma_views_push(kept@, one);
            assert(all[i as int] == one@);
            assert(all.take(i + 1) =~= all.take(i as int).push(one@));
        }
        kept.push(one);
        i += 1;
    }
    let c = "^".to_owned().concat(join(kept.as_slice(), ".").as_str());
    match stability {
        Some(s) => c.concat("@").concat(s),
        None => c,
    }
}

// ---------------------------------------------------------------------------
// The manifest
// ---------------------------------------------------------------------------
/// The requirements with the first `n` packages added.
pub open spec fn with_added(l: Pairs, packages: Seq<(String, String)>, n: int) -> Pairs
    decreases n,
{
    if n <= 0 || n > packages.len() {
        l
    } else {
        with_link(with_added(l, packages, n - 1), packages[n - 1].0@, packages[n - 1].1@)
    }
}

/// Adds packages to the requirements, or to those for development.
pub fn add_requirements(
    require: &mut IndexMap<String, String>,
    require_dev: &mut IndexMap<String, String>,
    packages: &Vec<(String, String)>,
    dev: bool,
)
    ensures
        links(*final(require)) == if dev {
            links(*old(require))
        } else {
            with_added(links(*old(require)), packages@, packages@.len() as int)
        },
        links(*final(require_dev)) == if dev {
            with_added(links(*old(require_dev)), packages@, packages@.len() as int)
        } else {
            links(*old(require_dev))
        },
{
    let ghost a = links(*require);
    let ghost b = links(*require_dev);
    let mut i: usize = 0;
    while i < packages.len()
        invariant
            i <= packages.len(),
            links(*require) == if dev {
                a
            } else {
                with_added(a, packages@, i as int)
            },
            links(*require_dev) == if dev {
                with_added(b, packages@, i as int)
            } else {
                b
            },
        decreases packages.len() - i,
    {
        if dev {
            set_link(require_dev, packages[i].0.clone(), packages[i].1.clone());
        } else {
            set_link(require, packages[i].0.clone(), packages[i].1.clone());
        }
        i += 1;
    }
}

/// The requirements without the first `n` names.
pub open spec fn without_names(l: Pairs, names: Seq<Seq<char>>, n: int) -> Pairs
    decreases n,
{
    if n <= 0 || n > names.len() {
        l
    } else {
        without_link(without_names(l, names, n - 1), names[n - 1])
    }
}

/// Whether each of the first `n` names was there when its turn came.
pub open spec fn were_there(require: Pairs, dev: Pairs, names: Seq<Seq<char>>, dev_only: bool, n: int)
    -> Seq<bool>
    decreases n,
{
    if n <= 0 || n > names.len() {
        Seq::empty()
    } else {
        were_there(require, dev, names, dev_only, n - 1).push(
            (!dev_only && has_link(without_names(require, names, n - 1), names[n - 1]))
                || has_link(without_names(dev, names, n - 1), names[n - 1]),
        )
    }
}

/// Takes packages out of the requirements and of those for development, or of the latter
/// only; says of each whether it was there.
pub fn remove_requirements(
    require: &mut IndexMap<String, String>,
    require_dev: &mut IndexMap<String, String>,
    names: &Vec<String>,
    dev_only: bool,
) -> (r: Vec<bool>)
    ensures
        links(*final(require)) == if dev_only {
            links(*old(require))
        } else {
            without_names(links(*old(require)), views(names@), names@.len() as int)
        },
        links(*final(require_dev)) == without_names(
            links(*old(require_dev)),
            views(names@),
            names@.len() as int,
        ),
        r@ == were_there(
            links(*old(require)),
            links(*old(require_dev)),
            views(names@),
            dev_only,
            names@.len() as int,
        ),
{
    let ghost a = links(*require);
    let ghost b = links(*require_dev);
    let ghost all = views(names@);
    let mut out: Vec<bool> = Vec::new();
    let mut i: usize = 0;
    assert(out@ =~= were_there(a, b, all, dev_only, 0));
    while i < names.len()
        invariant
            i <= names.len(),
            all == views(names@),
            links(*require) == if dev_only {
                a
            } else {
                without_names(a, all, i as int)
            },
            links(*require_dev) == without_names(b, all, i as int),
            out@ == were_there(a, b, all, dev_only, i as int),
        decreases names.len() - i,
    {
        assert(all[i as int] == names@[i as int]@);
        let mut there = false;
        if !dev_only {
            there = remove_link(require, names[i].as_str());
        }
        let there_dev = remove_link(require_dev, names[i].as_str());
        out.push(there || there_dev);
        i += 1;
    }
    out
}

/// What an update after `add` is asked: to update the packages that were added.
pub fn update_after_add(args: &AddArgs, names: Vec<String>) -> (r: UpdateOptions)
    ensures
        r == (UpdateOptions {
            optimize_autoloader: args.optimize_autoloader,
            classmap_authoritative: false,
            apcu_autoloader: false,
            update_lock_only: false,
            update_packages: Some(names),
            with_dependencies: false,
            with_all_dependencies: false,
            no_autoloader: args.no_autoloader,
            no_scripts: args.no_scripts,
        }),
{
    let mut o = UpdateOptions::default();
    o.optimize_autoloader = args.optimize_autoloader;
    o.no_autoloader = args.no_autoloader;
    o.no_scripts = args.no_scripts;
    o.update_packages = Some(names);
    o
}

/// What an update after `remove` is asked.
pub fn update_after_remove(args: &RemoveArgs) -> (r: UpdateOptions)
    ensures
        r == (UpdateOptions {
            optimize_autoloader: args.optimize_autoloader,
            classmap_authoritative: false,
            apcu_autoloader: false,
            update_lock_only: false,
            update_packages: None,
            with_dependencies: false,
            with_all_dependencies: false,
            no_autoloader: args.no_autoloader,
            no_scripts: args.no_scripts,
        }),
{
    let mut o = UpdateOptions::default();
    o.optimize_autoloader = args.optimize_autoloader;
    o.no_autoloader = args.no_autoloader;
    o.no_scripts = args.no_scripts;
    o
}

/// What was written is taken back where the update did not end well, unless nothing was
/// written.
pub fn is_restored(dry_run: bool, result: Option<i32>) -> (r: bool)
    ensures
        r == (!dry_run && result != Some(0i32)),
{
    match result {
        Some(c) => !dry_run && c != 0,
        None => !dry_run,
    }
}

/// What is done to a file to take a change back.
#[derive(Debug, Clone, PartialEq, Eq)]
pub enum Restoration {
    /// Write what stood in it.
    Write(String),
    /// Remove it.
    Remove,
    /// Nothing.
    Leave,
}

/// What is done to a file to take a change back: it gets what stood in it, and a file that was
/// not there is removed.
pub fn restore_project_file(original: Option<&str>, exists: bool) -> (r: Restoration)
    ensures
        match original {
            Some(content) => r matches Restoration::Write(c) && c@ == content@,
            None => r == if exists {
                Restoration::Remove
            } else {
                Restoration::Leave
            },
        },
{
    match original {
        Some(content) => Restoration::Write(content.to_owned()),
        None => if exists {
            Restoration::Remove
        } else {
            Restoration::Leave
        },
    }
}

// ---------------------------------------------------------------------------
// What holds of it
// ---------------------------------------------------------------------------
/// What is added last is required, as it was asked for.
pub proof fn law_added_package_is_required(l: Pairs, packages: Seq<(String, String)>)
    requires
        packages.len() > 0,
    ensures
        ({
            let r = with_added(l, packages, packages.len() as int);
            let last = packages.last();
            &&& has_link(r, last.0@)
            &&& exists|i: int| 0 <= i < r.len() && #[trigger] r[i] == (last.0@, last.1@)
        }),
{
    let n = packages.len() as int;
    let before = with_added(l, packages, n - 1);
    let last = packages[n - 1];
    let r = with_link(before, last.0@, last.1@);
    crate::links::lemma_link_at(before, last.0@);
    if has_link(before, last.0@) {
        assert(r[crate::links::link_at(before, last.0@)] == (last.0@, last.1@));
        assert(r[crate::links::link_at(before, last.0@)].0 == last.0@);
    } else {
        assert(r[before.len() as int] == (last.0@, last.1@));
        assert(r[before.len() as int].0 == last.0@);
    }
}

/// A package that is taken out of requirements without repeated names is not required any
/// more, and every other one still is.
pub proof fn law_removed_package_is_gone(l: Pairs, name: Seq<char>, other: Seq<char>)
    requires
        names_single(l),
    ensures
        !has_link(without_link(l, name), name),
        other != name ==> has_link(without_link(l, name), other) == has_link(l, other),
{
    crate::links::lemma_link_at(l, name);
    if has_link(l, name) {
        let at = crate::links::link_at(l, name);
        let r = without_link(l, name);
        if has_link(r, name) {
            let i = choose|i: int| 0 <= i < r.len() && #[trigger] r[i].0 == name;
            let j = if i < at {
                i
            } else {
                i + 1
            };
            assert(l[j].0 == name);
            if j < at {
                assert(l[j].0 != l[at].0);
            } else {
                assert(l[at].0 != l[j].0);
            }
        }
        if other != name && has_link(l, other) {
            let i = choose|i: int| 0 <= i < l.len() && #[trigger] l[i].0 == other;
            if i < at {
                assert(r[i].0 == other);
            } else {
                assert(r[i - 1].0 == other);
            }
        }
        if has_link(r, other) {
            let i = choose|i: int| 0 <= i < r.len() && #[trigger] r[i].0 == other;
            if i < at {
                assert(l[i].0 == other);
            } else {
                assert(l[i + 1].0 == other);
            }
        }
    }
}

/// No name stands twice.
pub open spec fn names_single(l: Pairs) -> bool {
    forall|i: int, j: int| 0 <= i < j < l.len() ==> (#[trigger] l[i]).0 != (#[trigger] l[j]).0
}

} // verus!
