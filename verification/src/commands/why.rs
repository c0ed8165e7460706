//! The commands `why` and `why-not`: which packages ask for a package, and which keep it
//! away.
use vstd::prelude::*;
use vstd::string::*;

use indexmap::IndexMap;

use crate::links::{link_count, link_entry, links, Pairs};
use crate::names::{is_platform_package, platform, NameSet};
use crate::package::Package;
use crate::sort::{by_name, lemma_pairs_push, pairs, sort_by_name};
use crate::text::{
    lemma_views_push, lowercase, pad, padded, repeat, repeated, str_equal, to_lowercase, views,
};

verus! {

/// What the user asks of the command.
#[derive(Debug)]
pub struct WhyArgs {
    pub package: String,
    pub constraint: Option<String>,
    /// Show a tree.
    pub tree: bool,
    pub recursive: bool,
    /// Go by the lock file.
    pub locked: bool,
    pub working_dir: String,
}

/// A package that asks for another, and those that ask for it in turn; `None` in place of
/// these where it was met before.
#[derive(Debug)]
pub struct Dependent {
    pub name: String,
    /// The version as it is shown.
    pub version: String,
    pub package_type: String,
    pub link_description: String,
    pub link_target: String,
    pub link_constraint: String,
    pub children: Option<Vec<Dependent>>,
}

// ---------------------------------------------------------------------------
// Before and after the search
// ---------------------------------------------------------------------------
/// The constraint that counts: a star stands for none.
pub open spec fn asked_constraint(args: WhyArgs) -> Option<Seq<char>> {
    match args.constraint {
        Some(c) => if c@ != "*"@ {
            Some(c@)
        } else {
            None
        },
        None => None,
    }
}

/// The constraint that counts.
pub fn constraint_asked(args: &WhyArgs) -> (r: Option<&str>)
    ensures
        r.is_some() == asked_constraint(*args).is_some(),
        r matches Some(c) ==> c@ == asked_constraint(*args)->0,
{
    match &args.constraint {
        Some(c) => if str_equal(c.as_str(), "*") {
            None
        } else {
            Some(c.as_str())
        },
        None => None,
    }
}

/// Why there is nothing to search, where that is so.
pub open spec fn obstacle_of(locked: bool, has_lock: bool, installed: nat, requirements: nat)
    -> Option<Seq<char>> {
    if locked && !has_lock {
        Some("Error: A valid composer.lock is required for --locked"@)
    } else if installed == 0 && requirements > 0 {
        Some(
            "Warning: No dependencies installed. Try running install or update, or use --locked."@,
        )
    } else {
        None
    }
}

/// Why there is nothing to search, where that is so. The command then ends with one.
pub fn obstacle(locked: bool, has_lock: bool, installed: usize, requirements: usize) -> (r: Option<
    &'static str,
>)
    ensures
        r.is_some() == obstacle_of(
            locked,
            has_lock,
            installed as nat,
            requirements as nat,
        ).is_some(),
        r matches Some(t) ==> t@ == obstacle_of(
            locked,
            has_lock,
            installed as nat,
            requirements as nat,
        )->0,
{
    if locked && !has_lock {
        Some("Error: A valid composer.lock is required for --locked")
    } else if installed == 0 && requirements > 0 {
        Some("Warning: No dependencies installed. Try running install or update, or use --locked.")
    } else {
        None
    }
}

/// The names in a list of links, one after the other, behind others.
pub open spec fn with_targets(out: Seq<Seq<char>>, l: Pairs) -> Seq<Seq<char>> {
    out + l.map_values(|p: (Seq<char>, Seq<char>)| p.0)
}

/// The names that the first `n` packages replace, behind others.
pub open spec fn with_replaced(
    out: Seq<Seq<char>>,
    matching: Seq<IndexMap<String, String>>,
    n: int,
) -> Seq<Seq<char>>
    decreases n,
{
    if n <= 0 || n > matching.len() {
        out
    } else {
        with_targets(with_replaced(out, matching, n - 1), links(matching[n - 1]))
    }
}

/// What is searched for: the package, and for `why-not` all that the packages found replace.
pub fn needles(needle: &str, replaces: &Vec<IndexMap<String, String>>, inverted: bool) -> (r: Vec<
    String,
>)
    ensures
        views(r@) == if inverted {
            with_replaced(seq![needle@], replaces@, replaces@.len() as int)
        } else {
            seq![needle@]
        },
{
    let mut out = vec![needle.to_owned()];
    assert(views(out@) =~= seq![needle@]);
    if inverted {
        let mut i: usize = 0;
        while i < replaces.len()
            invariant
                i <= replaces.len(),
                views(out@) == with_replaced(seq![needle@], replaces@, i as int),
            decreases replaces.len() - i,
        {
            let ghost start = views(out@);
            let ghost l = links(replaces@[i as int]);
            let n: usize = link_count(&replaces[i]);
            let mut j: usize = 0;
            assert(with_targets(start, l.take(0)) =~= start);
            while j < n
                invariant
                    j <= n,
                    n == l.len(),
                    i < replaces.len(),
                    l == links(replaces@[i as int]),
                    views(out@) == with_targets(start, l.take(j as int)),
                decreases n - j,
            {
                if let Some(e) = link_entry(&replaces[i], j) {
                    let one = e.0.to_owned();
                    proof {
                        lemma_views_push(out@, one);
                    }
                    out.push(one);
                    assert(l[j as int] == (e.0@, e.1@));
                    assert(with_targets(start, l.take(j + 1)) =~= with_targets(
                        start,
                        l.take(j as int),
                    ).push(one@));
                }
                j += 1;
            }
            assert(l.take(n as int) =~= l);
            i += 1;
        }
    }
    out
}

/// One of the first `n` links is to the package, but for case.
pub open spec fn links_to(l: Pairs, package: Seq<char>) -> bool {
    exists|i: int| 0 <= i < l.len() && lowercase((#[trigger] l[i]).0) == lowercase(package)
}

fn is_linked(m: &IndexMap<String, String>, package: &str) -> (r: bool)
    ensures
        r == links_to(links(*m), package@),
{
    let ghost l = links(*m);
    let n: usize = link_count(m);
    let low = to_lowercase(package);
    let mut i: usize = 0;
    while i < n
        invariant
            i <= n,
            n == l.len(),
            l == links(*m),
            low@ == lowercase(package@),
            forall|k: int| 0 <= k < i ==> lowercase((#[trigger] l[k]).0) != lowercase(package@),
        decreases n - i,
    {
        if let Some(e) = link_entry(m, i) {
            assert(l[i as int] == (e.0@, e.1@));
            if str_equal(to_lowercase(e.0).as_str(), low.as_str()) {
                return true;
            }
        }
        i += 1;
    }
    false
}

/// The command that shows more.
pub open spec fn better_command(require: Pairs, require_dev: Pairs, package: Seq<char>) -> Seq<
    char,
> {
    if links_to(require_dev, package) {
        "require --dev"@
    } else if links_to(require, package) {
        "require"@
    } else {
        "update"@
    }
}

/// What the standard output and the standard error get, and the exit code.
#[derive(Debug)]
pub struct Answer {
    pub out: String,
    pub err: String,
    pub code: i32,
}

/// What an answer says.
pub struct AnswerView {
    pub out: Seq<char>,
    pub err: Seq<char>,
    pub code: int,
}

impl View for Answer {
    type V = AnswerView;

    open spec fn view(&self) -> AnswerView {
        AnswerView { out: self.out@, err: self.err@, code: self.code as int }
    }
}

/// The package has the name, whatever the case of the letters.
pub open spec fn is_called(p: Package, name: Seq<char>) -> bool {
    lowercase(p.name@) == lowercase(name)
}

/// The version, as it is shown, of the first of the first `n` packages with the name.
pub open spec fn version_in(packages: Seq<Package>, name: Seq<char>, n: int) -> Option<Seq<char>>
    decreases n,
{
    if n <= 0 || n > packages.len() {
        None
    } else {
        match version_in(packages, name, n - 1) {
            Some(v) => Some(v),
            None => if is_called(packages[n - 1], name) {
                Some(packages[n - 1].shown_version())
            } else {
                None
            },
        }
    }
}

/// The version of the package with the name, as it is shown, where it is installed.
pub fn installed_version<'a>(packages: &'a [Package], name: &str) -> (r: Option<&'a str>)
    ensures
        r.is_some() == version_in(packages@, name@, packages@.len() as int).is_some(),
        r matches Some(v) ==> v@ == version_in(packages@, name@, packages@.len() as int)->0,
{
    let wanted = to_lowercase(name);
    let mut i: usize = 0;
    while i < packages.len()
        invariant
            i <= packages.len(),
            wanted@ == lowercase(name@),
            version_in(packages@, name@, i as int) is None,
        decreases packages.len() - i,
    {
        if str_equal(to_lowercase(packages[i].name.as_str()).as_str(), wanted.as_str()) {
            proof {
                lemma_version_stays(packages@, name@, i + 1, packages@.len() as int);
            }
            return Some(packages[i].pretty_version());
        }
        i += 1;
    }
    None
}

proof fn lemma_version_stays(packages: Seq<Package>, name: Seq<char>, n: int, m: int)
    requires
        0 <= n <= m <= packages.len(),
        version_in(packages, name, n) is Some,
    ensures
        version_in(packages, name, m) == version_in(packages, name, n),
    decreases m - n,
{
    if n < m {
        lemma_version_stays(packages, name, n, m - 1);
    }
}

/// The answer where the search need not go on: no package matches, or the package that must
/// not be there is.
pub open spec fn early_answer(
    needle: Seq<char>,
    matching: nat,
    installed: Option<Seq<char>>,
    inverted: bool,
) -> Option<AnswerView> {
    if matching == 0 {
        Some(
            AnswerView {
                out: ""@,
                err: "Error: Could not find package \""@ + needle + "\" in your project\n"@,
                code: 1,
            },
        )
    } else if inverted && installed is Some {
        Some(
            AnswerView {
                out: "Package \""@ + needle + "\" "@ + installed->0
                    + " is already installed! To find out why, run `composer-rs why "@ + needle
                    + "`\n"@,
                err: ""@,
                code: 0,
            },
        )
    } else {
        None
    }
}

/// The answer where the search need not go on. `installed` is the version of the package,
/// where it is installed under this name.
pub fn early(needle: &str, matching: usize, installed: Option<&str>, inverted: bool) -> (r: Option<
    Answer,
>)
    ensures
        (match r {
            Some(a) => Some(a@),
            None => None,
        }) == early_answer(
            needle@,
            matching as nat,
            match installed {
                Some(v) => Some(v@),
                None => None,
            },
            inverted,
        ),
{
    if matching == 0 {
        return Some(
            Answer {
                out: "".to_owned(),
                err: "Error: Could not find package \"".to_owned().concat(needle).concat(
                    "\" in your project\n",
                ),
                code: 1,
            },
        );
    }
    if inverted {
        if let Some(v) = installed {
            return Some(
                Answer {
                    out: "Package \"".to_owned().concat(needle).concat("\" ").concat(v).concat(
                        " is already installed! To find out why, run `composer-rs why ",
                    ).concat(needle).concat("`\n"),
                    err: "".to_owned(),
                    code: 0,
                },
            );
        }
    }
    None
}

/// What is said where nothing depends on the package.
pub open spec fn nothing_depends(
    needle: Seq<char>,
    constraint: Option<Seq<char>>,
    inverted: bool,
) -> Seq<char> {
    let t = "There is no installed package depending on \""@ + needle + "\""@;
    match constraint {
        Some(c) => t + (" in versions "@ + (if inverted {
            "not "@
        } else {
            ""@
        }) + "matching "@ + c) + "\n"@,
        None => t + ""@ + "\n"@,
    }
}

/// The hint that ends the answer of `why-not` where a version was asked for.
pub open spec fn hint_of(command: Seq<char>, needle: Seq<char>, constraint: Seq<char>) -> Seq<char> {
    "\nNot finding what you were looking for? Try calling `composer-rs "@ + command + " \""@
        + needle + ":"@ + constraint + "\" --dry-run` to get another view on the problem.\n"@
}

/// The answer to a search.
pub open spec fn answer_of(
    args: WhyArgs,
    inverted: bool,
    results: Vec<Dependent>,
    root: (Seq<char>, Seq<char>),
    require: Pairs,
    require_dev: Pairs,
) -> AnswerView {
    let needle = args.package@;
    if results@.len() == 0 {
        AnswerView {
            out: nothing_depends(needle, asked_constraint(args), inverted),
            err: ""@,
            code: if inverted {
                0
            } else {
                1
            },
        }
    } else {
        AnswerView {
            out: if args.tree {
                root.0 + " "@ + root.1 + "\n"@ + tree_text(results, ""@, results@.len() as int)
            } else {
                table_text(results@)
            },
            err: if inverted && args.constraint is Some && !platform(needle) {
                hint_of(
                    better_command(require, require_dev, needle),
                    needle,
                    args.constraint->0@,
                )
            } else {
                ""@
            },
            code: if inverted {
                1
            } else {
                0
            },
        }
    }
}

/// The answer to a search: `root` is the name and the version of the first package that
/// matches.
pub fn answer(
    args: &WhyArgs,
    inverted: bool,
    results: &Vec<Dependent>,
    root: (&str, &str),
    require: &IndexMap<String, String>,
    require_dev: &IndexMap<String, String>,
) -> (r: Answer)
    ensures
        r@ == answer_of(
            *args,
            inverted,
            *results,
            (root.0@, root.1@),
            links(*require),
            links(*require_dev),
        ),
{
    let needle = args.package.as_str();
    if results.len() == 0 {
        let mut out = "There is no installed package depending on \"".to_owned();
        out.append(needle);
        out.append("\"");
        match constraint_asked(args) {
            Some(c) => {
                let extra = " in versions ".to_owned().concat(
                    if inverted {
                        "not "
                    } else {
                        ""
                    },
                ).concat("matching ").concat(c);
                out.append(extra.as_str());
            },
            None => {
                out.append("");
            },
        }
        out.append("\n");
        return Answer {
            out,
            err: "".to_owned(),
            code: if inverted {
                0
            } else {
                1
            },
        };
    }
    let out = if args.tree {
        let mut t = root.0.to_owned();
        t.append(" ");
        t.append(root.1);
        t.append("\n");
        t.append(tree(results, "").as_str());
        t
    } else {
        table(results)
    };
    let mut err = "".to_owned();
    if inverted && !is_platform_package(needle) {
        if let Some(c) = &args.constraint {
            let command = if is_linked(require_dev, needle) {
                "require --dev"
            } else if is_linked(require, needle) {
                "require"
            } else {
                "update"
            };
            err = "\nNot finding what you were looking for? Try calling `composer-rs ".to_owned();
            err.append(command);
            err.append(" \"");
            err.append(needle);
            err.append(":");
            err.append(c.as_str());
            err.append("\" --dry-run` to get another view on the problem.\n");
        }
    }
    Answer {
        out,
        err,
        code: if inverted {
            1
        } else {
            0
        },
    }
}

// ---------------------------------------------------------------------------
// The tree
// ---------------------------------------------------------------------------
/// A line of the tree.
pub open spec fn tree_line(d: Dependent, prefix: Seq<char>, last: bool) -> Seq<char> {
    prefix + (if last {
        "└── "@
    } else {
        "├── "@
    }) + d.name@ + " "@ + d.version@ + " ("@ + d.link_description@ + " "@ + d.link_target@ + " "@
        + d.link_constraint@ + ")"@ + (if d.children is None {
        " (circular dependency aborted here)"@
    } else {
        ""@
    }) + "\n"@
}

/// What stands in front of the lines below another.
pub open spec fn deeper(prefix: Seq<char>, last: bool) -> Seq<char> {
    prefix + (if last {
        " "@
    } else {
        "│"@
    }) + "   "@
}

/// The first `n` packages as a tree, with what is below each.
pub open spec fn tree_text(v: Vec<Dependent>, prefix: Seq<char>, n: int) -> Seq<char>
    decreases v, n,
{
    if n <= 0 || n > v@.len() {
        ""@
    } else {
        let d = v[n - 1];
        let last = n == v@.len();
        let t = tree_text(v, prefix, n - 1) + tree_line(d, prefix, last);
        match d.children {
            Some(c) => t + tree_text(c, deeper(prefix, last), c@.len() as int),
            None => t,
        }
    }
}

/// The packages as a tree.
pub fn tree(v: &Vec<Dependent>, prefix: &str) -> (r: String)
    ensures
        r@ == tree_text(*v, prefix@, v@.len() as int),
    decreases *v,
{
    let mut out = "".to_owned();
    let mut i: usize = 0;
    while i < v.len()
        invariant
            i <= v.len(),
            out@ == tree_text(*v, prefix@, i as int),
        decreases v.len() - i,
    {
        let d = &v[i];
        let last = i == v.len() - 1;
        let mut line = prefix.to_owned();
        line.append(
            if last {
                "└── "
            } else {
                "├── "
            },
        );
        line.append(d.name.as_str());
        line.append(" ");
        line.append(d.version.as_str());
        line.append(" (");
        line.append(d.link_description.as_str());
        line.append(" ");
        line.append(d.link_target.as_str());
        line.append(" ");
        line.append(d.link_constraint.as_str());
        line.append(")");
        line.append(
            if d.children.is_none() {
                " (circular dependency aborted here)"
            } else {
                ""
            },
        );
        line.append("\n");
        out.append(line.as_str());
        if let Some(c) = &d.children {
            let mut below = prefix.to_owned();
            below.append(
                if last {
                    " "
                } else {
                    "│"
                },
            );
            below.append("   ");
            proof {
                assert(decreases_to!(*v => v@[i as int]));
                assert(decreases_to!(v@[i as int] => *c));
            }
            out.append(tree(c, below.as_str()).as_str());
        }
        i += 1;
    }
    out
}

// ---------------------------------------------------------------------------
// The table
// ---------------------------------------------------------------------------
/// What tells two lines of the table apart.
pub open spec fn key_of(d: Dependent) -> Seq<char> {
    d.name@ + ":"@ + d.link_target@
}

/// The number of packages in a tree.
pub open spec fn size(d: Dependent) -> nat
    decreases d, 0int,
{
    match d.children {
        Some(c) => 1 + total(c, c@.len() as int),
        None => 1,
    }
}

/// The number of packages in the first `n` trees.
pub open spec fn total(v: Vec<Dependent>, n: int) -> nat
    decreases v, n,
{
    if n <= 0 || n > v@.len() {
        0
    } else {
        total(v, n - 1) + size(v[n - 1])
    }
}

/// The number of packages in trees.
pub open spec fn total_of(s: Seq<Dependent>) -> nat
    decreases s.len(),
{
    if s.len() == 0 {
        0
    } else {
        total_of(s.drop_last()) + size(s.last())
    }
}

/// The packages of one level that were not met before, neither above nor on the level.
pub open spec fn kept(level: Seq<Dependent>, seen: Set<Seq<char>>) -> Seq<Dependent>
    decreases level.len(),
{
    if level.len() == 0 {
        Seq::empty()
    } else {
        let t = kept(level.drop_last(), seen);
        if keys_with(level.drop_last(), seen).contains(key_of(level.last())) {
            t
        } else {
            t.push(level.last())
        }
    }
}

/// What was met, with a level.
pub open spec fn keys_with(level: Seq<Dependent>, seen: Set<Seq<char>>) -> Set<Seq<char>>
    decreases level.len(),
{
    if level.len() == 0 {
        seen
    } else {
        keys_with(level.drop_last(), seen).insert(key_of(level.last()))
    }
}

/// The children of the packages of a level.
pub open spec fn below(level: Seq<Dependent>) -> Seq<Dependent>
    decreases level.len(),
{
    if level.len() == 0 {
        Seq::empty()
    } else {
        below(level.drop_last()) + match level.last().children {
            Some(c) => c@,
            None => Seq::empty(),
        }
    }
}

/// The packages level by level, each pair of a package and a target once.
pub open spec fn walked(level: Seq<Dependent>, seen: Set<Seq<char>>) -> Seq<Dependent>
    decreases total_of(level),
    via walked_decreases
{
    if level.len() == 0 {
        Seq::empty()
    } else {
        kept(level, seen) + walked(below(kept(level, seen)), keys_with(level, seen))
    }
}

#[via_fn]
proof fn walked_decreases(level: Seq<Dependent>, seen: Set<Seq<char>>) {
    lemma_below(kept(level, seen));
    lemma_kept(level, seen);
    if level.len() > 0 {
        assert(size(level.last()) >= 1);
    }
}

proof fn lemma_total_append(a: Seq<Dependent>, b: Seq<Dependent>)
    ensures
        total_of(a + b) == total_of(a) + total_of(b),
    decreases b.len(),
{
    if b.len() == 0 {
        assert(a + b =~= a);
    } else {
        lemma_total_append(a, b.drop_last());
        assert((a + b).drop_last() =~= a + b.drop_last());
        assert((a + b).last() == b.last());
    }
}

proof fn lemma_total_vec(v: Vec<Dependent>, n: int)
    requires
        0 <= n <= v@.len(),
    ensures
        total_of(v@.take(n)) == total(v, n),
    decreases n,
{
    if n > 0 {
        lemma_total_vec(v, n - 1);
        assert(v@.take(n).drop_last() =~= v@.take(n - 1));
    }
}

pub proof fn lemma_below(level: Seq<Dependent>)
    ensures
        total_of(below(level)) + level.len() <= total_of(level),
    decreases level.len(),
{
    if level.len() > 0 {
        lemma_below(level.drop_last());
        let c = match level.last().children {
            Some(c) => c@,
            None => Seq::empty(),
        };
        lemma_total_append(below(level.drop_last()), c);
        if let Some(v) = level.last().children {
            lemma_total_vec(v, v@.len() as int);
            assert(v@.take(v@.len() as int) =~= v@);
        }
    }
}

pub proof fn lemma_kept(level: Seq<Dependent>, seen: Set<Seq<char>>)
    ensures
        total_of(kept(level, seen)) <= total_of(level),
        kept(level, seen).len() <= level.len(),
        kept(level, seen).len() == 0 ==> below(kept(level, seen)).len() == 0,
    decreases level.len(),
{
    if level.len() > 0 {
        lemma_kept(level.drop_last(), seen);
        let t = kept(level.drop_last(), seen);
        assert(t.push(level.last()).drop_last() =~= t);
    }
}

/// What the references of a list stand for.
pub open spec fn meant(v: Seq<&Dependent>) -> Seq<Dependent> {
    v.map_values(|d: &Dependent| *d)
}

fn key(d: &Dependent) -> (r: String)
    ensures
        r@ == key_of(*d),
{
    d.name.clone().concat(":").concat(d.link_target.as_str())
}

/// Takes the packages of a level that were not met before, and their children.
fn take_level<'a>(level: &Vec<&'a Dependent>, seen: &mut NameSet, all: &mut Vec<&'a Dependent>) -> (r:
    Vec<&'a Dependent>)
    ensures
        meant(final(all)@) == meant(old(all)@) + kept(meant(level@), old(seen)@),
        final(seen)@ == keys_with(meant(level@), old(seen)@),
        meant(r@) == below(kept(meant(level@), old(seen)@)),
{
    let ghost l = meant(level@);
    let ghost first = seen@;
    let ghost start = meant(all@);
    let mut next: Vec<&'a Dependent> = Vec::new();
    let mut i: usize = 0;
    assert(l.take(0) =~= Seq::empty());
    assert(start + kept(l.take(0), first) =~= start);
    assert(meant(next@) =~= Seq::empty());
    while i < level.len()
        invariant
            i <= level.len(),
            l == meant(level@),
            meant(all@) == start + kept(l.take(i as int), first),
            seen@ == keys_with(l.take(i as int), first),
            meant(next@) == below(kept(l.take(i as int), first)),
        decreases level.len() - i,
    {
        let d = level[i];
        proof {
            assert(l.take(i + 1).drop_last() =~= l.take(i as int));
            assert(l.take(i + 1).last() == *d);
        }
        let ghost k = kept(l.take(i as int), first);
        if seen.insert(key(d).as_str()) {
            let ghost before = meant(all@);
            all.push(d);
            assert(meant(all@) =~= before.push(*d));
            assert(meant(all@) =~= start + k.push(*d));
            assert(k.push(*d).drop_last() =~= k);
            if let Some(c) = &d.children {
                let ghost nb = meant(next@);
                let mut j: usize = 0;
                assert(nb + c@.take(0) =~= nb);
                while j < c.len()
                    invariant
                        j <= c.len(),
                        meant(next@) == nb + c@.take(j as int),
                    decreases c.len() - j,
                {
                    let ghost before = meant(next@);
                    next.push(&c[j]);
                    assert(meant(next@) =~= before.push(c@[j as int]));
                    assert(before.push(c@[j as int]) =~= nb + c@.take(j + 1));
                    j += 1;
                }
                assert(c@.take(j as int) =~= c@);
            } else {
                assert(meant(next@) + Seq::<Dependent>::empty() =~= meant(next@));
            }
        } else {
            assert(keys_with(l.take(i as int), first).insert(key_of(*d)) =~= keys_with(
                l.take(i as int),
                first,
            ));
        }
        i += 1;
    }
    assert(l.take(i as int) =~= l);
    next
}

/// The package is the project itself.
pub open spec fn is_root(d: Dependent) -> bool {
    d.package_type@ == "root-package"@
}

/// A line of the table.
pub open spec fn row_of(d: Dependent) -> Seq<char> {
    padded(d.name@, 40) + " "@ + padded(d.version@, 15) + " "@ + padded(d.link_description@, 15)
        + " "@ + (d.link_target@ + " ("@ + d.link_constraint@ + ")"@) + "\n"@
}

/// Names and lines of the packages that are the project, or of those that are not.
pub open spec fn rows(all: Seq<Dependent>, root: bool) -> Pairs
    decreases all.len(),
{
    if all.len() == 0 {
        Seq::empty()
    } else {
        let t = rows(all.drop_last(), root);
        if is_root(all.last()) == root {
            t.push((all.last().name@, row_of(all.last())))
        } else {
            t
        }
    }
}

/// The text followed by the first `n` lines.
pub open spec fn with_rows(t: Seq<char>, r: Pairs, n: int) -> Seq<char>
    decreases n,
{
    if n <= 0 || n > r.len() {
        t
    } else {
        with_rows(t, r, n - 1) + r[n - 1].1
    }
}

/// The head of the table.
pub open spec fn head_text() -> Seq<char> {
    padded("Package"@, 40) + " "@ + padded("Version"@, 15) + " "@ + padded("Dependency"@, 15) + " "@
        + "Constraint\n"@ + repeated('-', 100) + "\n"@
}

/// The table: the project first, then the packages by name; of the same name, those that
/// were met first come first.
pub open spec fn table_text(results: Seq<Dependent>) -> Seq<char> {
    let all = walked(results, Set::empty());
    let a = by_name(rows(all, true));
    let b = by_name(rows(all, false));
    with_rows(with_rows(head_text(), a, a.len() as int), b, b.len() as int)
}

fn row(d: &Dependent) -> (r: String)
    ensures
        r@ == row_of(*d),
{
    let mut t = pad(d.name.as_str(), 40);
    t.append(" ");
    t.append(pad(d.version.as_str(), 15).as_str());
    t.append(" ");
    t.append(pad(d.link_description.as_str(), 15).as_str());
    t.append(" ");
    t.append(
        d.link_target.clone().concat(" (").concat(d.link_constraint.as_str()).concat(")").as_str(),
    );
    t.append("\n");
    t
}

fn rows_of(all: &Vec<&Dependent>, root: bool) -> (r: Vec<(String, String)>)
    ensures
        pairs(r@) == rows(meant(all@), root),
{
    let ghost a = meant(all@);
    let mut out: Vec<(String, String)> = Vec::new();
    let mut i: usize = 0;
    assert(pairs(out@) =~= rows(a.take(0), root));
    while i < all.len()
        invariant
            i <= all.len(),
            a == meant(all@),
            pairs(out@) == rows(a.take(i as int), root),
        decreases all.len() - i,
    {
        let d = all[i];
        proof {
            assert(a.take(i + 1).drop_last() =~= a.take(i as int));
            assert(a.take(i + 1).last() == *d);
        }
        if str_equal(d.package_type.as_str(), "root-package") == root {
            let one = (d.name.clone(), row(d));
            proof {
                lemma_pairs_push(out@, one);
            }
            out.push(one);
        }
        i += 1;
    }
    assert(a.take(i as int) =~= a);
    out
}

fn write_rows(out: &mut String, r: &Vec<(String, String)>)
    ensures
        final(out)@ == with_rows(old(out)@, pairs(r@), r@.len() as int),
{
    let ghost p = pairs(r@);
    let ghost start = out@;
    let mut i: usize = 0;
    while i < r.len()
        invariant
            i <= r.len(),
            p == pairs(r@),
            out@ == with_rows(start, p, i as int),
        decreases r.len() - i,
    {
        assert(p[i as int] == (r@[i as int].0@, r@[i as int].1@));
        out.append(r[i].1.as_str());
        i += 1;
    }
}

/// The packages level by level, each pair of a package and a target once.
fn walk<'a>(results: &'a Vec<Dependent>) -> (r: Vec<&'a Dependent>)
    ensures
        meant(r@) == walked(results@, Set::empty()),
{
    let mut level: Vec<&'a Dependent> = Vec::new();
    let mut i: usize = 0;
    assert(meant(level@) =~= results@.take(0));
    while i < results.len()
        invariant
            i <= results.len(),
            meant(level@) == results@.take(i as int),
        decreases results.len() - i,
    {
        let ghost before = meant(level@);
        level.push(&results[i]);
        assert(meant(level@) =~= before.push(results@[i as int]));
        i += 1;
        assert(meant(level@) =~= results@.take(i as int));
    }
    assert(results@.take(i as int) =~= results@);
    let mut seen = NameSet::new();
    let mut all: Vec<&'a Dependent> = Vec::new();
    assert(meant(all@) + walked(results@, Set::empty()) =~= walked(results@, Set::empty()));
    while level.len() > 0
        invariant
            walked(results@, Set::empty()) == meant(all@) + walked(meant(level@), seen@),
        decreases total_of(meant(level@)),
    {
        let ghost before = meant(all@);
        let ghost l = meant(level@);
        let ghost s = seen@;
        assert(l.len() == level.len());
        proof {
            lemma_below(kept(l, s));
            lemma_kept(l, s);
            assert(size(l.last()) >= 1);
        }
        level = take_level(&level, &mut seen, &mut all);
        assert(before + (kept(l, s) + walked(meant(level@), seen@)) =~= meant(all@) + walked(
            meant(level@),
            seen@,
        ));
    }
    assert(meant(level@).len() == 0);
    assert(meant(all@) + Seq::<Dependent>::empty() =~= meant(all@));
    all
}

/// The table.
pub fn table(results: &Vec<Dependent>) -> (r: String)
    ensures
        r@ == table_text(results@),
{
    let mut out = pad("Package", 40);
    out.append(" ");
    out.append(pad("Version", 15).as_str());
    out.append(" ");
    out.append(pad("Dependency", 15).as_str());
    out.append(" ");
    out.append("Constraint\n");
    out.append(repeat('-', 100).as_str());
    out.append("\n");
    let all = walk(results);
    let roots = sort_by_name(rows_of(&all, true));
    let others = sort_by_name(rows_of(&all, false));
    assert(pairs(roots@).len() == roots@.len());
    assert(pairs(others@).len() == others@.len());
    write_rows(&mut out, &roots);
    write_rows(&mut out, &others);
    out
}

// ---------------------------------------------------------------------------
// What holds of it
// ---------------------------------------------------------------------------
/// The exit code of `why` is zero exactly where something depends on the package; that of
/// `why-not` is the other way round.
pub proof fn law_code_tells_what_was_found(
    args: WhyArgs,
    inverted: bool,
    results: Vec<Dependent>,
    root: (Seq<char>, Seq<char>),
    require: Pairs,
    require_dev: Pairs,
)
    ensures
        (answer_of(args, inverted, results, root, require, require_dev).code == 0) == (
        inverted == (results@.len() == 0)),
{
}

/// No line of the table repeats a package with the same target.
pub proof fn law_table_repeats_nothing(
    level: Seq<Dependent>,
    seen: Set<Seq<char>>,
    i: int,
    j: int,
)
    requires
        0 <= i < walked(level, seen).len(),
    ensures
        !seen.contains(key_of(walked(level, seen)[i])),
        0 <= j < i ==> key_of(walked(level, seen)[i]) != key_of(walked(level, seen)[j]),
    decreases total_of(level),
{
    let k = kept(level, seen);
    let keys = keys_with(level, seen);
    let rest = walked(below(k), keys);
    lemma_below(k);
    lemma_kept(level, seen);
    lemma_kept_keys(level, seen);
    if level.len() > 0 {
        assert(size(level.last()) >= 1);
        let w = walked(level, seen);
        assert(w == k + rest);
        if i >= k.len() {
            law_table_repeats_nothing(below(k), keys, i - k.len(), j - k.len());
            assert(w[i] == rest[i - k.len()]);
            if 0 <= j < k.len() {
                assert(w[j] == k[j]);
            } else if k.len() <= j < i {
                assert(w[j] == rest[j - k.len()]);
            }
        } else {
            assert(w[i] == k[i]);
            if 0 <= j < i {
                assert(w[j] == k[j]);
            }
        }
    }
}

proof fn lemma_kept_keys(level: Seq<Dependent>, seen: Set<Seq<char>>)
    ensures
        seen.subset_of(keys_with(level, seen)),
        forall|i: int|
            0 <= i < kept(level, seen).len() ==> {
                &&& !seen.contains(key_of(#[trigger] kept(level, seen)[i]))
                &&& keys_with(level, seen).contains(key_of(kept(level, seen)[i]))
            },
        forall|i: int, j: int|
            0 <= j < i < kept(level, seen).len() ==> key_of(#[trigger] kept(level, seen)[i])
                != key_of(#[trigger] kept(level, seen)[j]),
    decreases level.len(),
{
    if level.len() > 0 {
        lemma_kept_keys(level.drop_last(), seen);
        let t = kept(level.drop_last(), seen);
        let k = kept(level, seen);
        let known = keys_with(level.drop_last(), seen);
        assert forall|i: int| 0 <= i < k.len() implies !seen.contains(key_of(#[trigger] k[i]))
            && keys_with(level, seen).contains(key_of(k[i])) by {
            if i < t.len() {
                assert(k[i] == t[i]);
            }
        }
        assert forall|i: int, j: int| 0 <= j < i < k.len() implies key_of(#[trigger] k[i])
            != key_of(#[trigger] k[j]) by {
            assert(k[j] == t[j]);
            if i < t.len() {
                assert(k[i] == t[i]);
            } else {
                assert(known.contains(key_of(t[j])));
            }
        }
    }
}

} // verus!
