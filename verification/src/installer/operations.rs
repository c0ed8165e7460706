//! What a transaction does to the packages in place: what goes, what changes, what comes.
use vstd::prelude::*;
use vstd::string::*;

use crate::names::platform;
use crate::package::Package;
use crate::paths::{join_path, joined_path};

verus! {

/// How packages are installed.
#[derive(Debug, Clone)]
pub struct InstallConfig {
    pub vendor_dir: String,
    pub bin_dir: String,
    pub cache_dir: String,
    pub prefer_source: bool,
    pub prefer_dist: bool,
    /// Change nothing.
    pub dry_run: bool,
    /// Leave packages for development out.
    pub no_dev: bool,
    pub prefer_lowest: bool,
}

/// Where the user keeps caches on Linux: `XDG_CACHE_HOME`, else `.cache` at home.
pub open spec fn user_cache_of(xdg: Option<Seq<char>>, home: Option<Seq<char>>) -> Option<
    Seq<char>,
> {
    match xdg {
        Some(d) => Some(joined_path(d, "composer"@)),
        None => match home {
            Some(h) => Some(joined_path(joined_path(h, ".cache"@), "composer"@)),
            None => None,
        },
    }
}

/// Where the user keeps caches on Linux, given two variables of the environment.
pub fn user_cache_dir(xdg_cache_home: Option<&str>, home: Option<&str>) -> (r: Option<String>)
    ensures
        r.is_some() == user_cache_of(text_of(xdg_cache_home), text_of(home)).is_some(),
        r matches Some(d) ==> d@ == user_cache_of(text_of(xdg_cache_home), text_of(home))->0,
{
    match xdg_cache_home {
        Some(d) => Some(join_path(d, "composer")),
        None => match home {
            Some(h) => {
                let base = join_path(h, ".cache");
                Some(join_path(base.as_str(), "composer"))
            },
            None => None,
        },
    }
}

/// The text, where there is one.
pub open spec fn text_of(s: Option<&str>) -> Option<Seq<char>> {
    match s {
        Some(t) => Some(t@),
        None => None,
    }
}

impl InstallConfig {
    /// How packages are installed where nothing else is asked for. The caches are those of the
    /// user, given two variables of the environment, and stand in the current directory where
    /// neither is set.
    pub fn default(xdg_cache_home: Option<&str>, home: Option<&str>) -> (r: InstallConfig)
        ensures
            r.vendor_dir@ == "vendor"@,
            r.bin_dir@ == "vendor/bin"@,
            r.cache_dir@ == joined_path(
                match user_cache_of(text_of(xdg_cache_home), text_of(home)) {
                    Some(d) => d,
                    None => ".composer"@,
                },
                "cache"@,
            ),
            !r.prefer_source,
            r.prefer_dist,
            !r.dry_run,
            !r.no_dev,
            !r.prefer_lowest,
    {
        let base = match user_cache_dir(xdg_cache_home, home) {
            Some(d) => d,
            None => ".composer".to_owned(),
        };
        InstallConfig {
            vendor_dir: "vendor".to_owned(),
            bin_dir: "vendor/bin".to_owned(),
            cache_dir: join_path(base.as_str(), "cache"),
            prefer_source: false,
            prefer_dist: true,
            dry_run: false,
            no_dev: false,
            prefer_lowest: false,
        }
    }
}

/// What a transaction does to one package.
#[derive(Debug, Clone, Copy)]
pub enum Operation<'a> {
    Install(&'a Package),
    Update { from: &'a Package, to: &'a Package },
    Uninstall(&'a Package),
    MarkUnneeded(&'a Package),
    MarkAliasInstalled(&'a Package),
    MarkAliasUninstalled(&'a Package),
}

/// What goes, what changes and what comes.
#[derive(Debug)]
pub struct InstallResult<'a> {
    pub installed: Vec<&'a Package>,
    pub updated: Vec<(&'a Package, &'a Package)>,
    pub removed: Vec<&'a Package>,
    pub binaries: Vec<String>,
}

/// The packages among the first `n` that come. With `all`, platform packages count too.
pub open spec fn coming<'a>(ops: Seq<Operation<'a>>, n: int, all: bool) -> Seq<&'a Package>
    decreases n,
{
    if n <= 0 || n > ops.len() {
        Seq::empty()
    } else {
        let t = coming(ops, n - 1, all);
        match ops[n - 1] {
            Operation::Install(p) if all || !platform(p.name@) => t.push(p),
            _ => t,
        }
    }
}

/// The packages among the first `n` that change.
pub open spec fn changing<'a>(ops: Seq<Operation<'a>>, n: int, all: bool) -> Seq<
    (&'a Package, &'a Package),
>
    decreases n,
{
    if n <= 0 || n > ops.len() {
        Seq::empty()
    } else {
        let t = changing(ops, n - 1, all);
        match ops[n - 1] {
            Operation::Update { from, to } if all || !platform(to.name@) => t.push((from, to)),
            _ => t,
        }
    }
}

/// The packages among the first `n` that go.
pub open spec fn going<'a>(ops: Seq<Operation<'a>>, n: int, all: bool) -> Seq<&'a Package>
    decreases n,
{
    if n <= 0 || n > ops.len() {
        Seq::empty()
    } else {
        let t = going(ops, n - 1, all);
        match ops[n - 1] {
            Operation::Uninstall(p) if all || !platform(p.name@) => t.push(p),
            _ => t,
        }
    }
}

/// Sorts the operations of a transaction by what they do, each kind in its order. A
/// dry run reports platform packages too; else nothing is done about them.
pub fn phases<'a>(ops: &[Operation<'a>], dry_run: bool) -> (r: InstallResult<'a>)
    ensures
        r.installed@ == coming(ops@, ops@.len() as int, dry_run),
        r.updated@ == changing(ops@, ops@.len() as int, dry_run),
        r.removed@ == going(ops@, ops@.len() as int, dry_run),
        r.binaries@.len() == 0,
{
    let mut installed: Vec<&'a Package> = Vec::new();
    let mut updated: Vec<(&'a Package, &'a Package)> = Vec::new();
    let mut removed: Vec<&'a Package> = Vec::new();
    let mut i: usize = 0;
    while i < ops.len()
        invariant
            i <= ops.len(),
            installed@ == coming(ops@, i as int, dry_run),
            updated@ == changing(ops@, i as int, dry_run),
            removed@ == going(ops@, i as int, dry_run),
        decreases ops.len() - i,
    {
        match ops[i] {
            Operation::Install(p) => {
                if dry_run || !p.is_platform_package() {
                    installed.push(p);
                }
            },
            Operation::Update { from, to } => {
                if dry_run || !to.is_platform_package() {
                    updated.push((from, to));
                }
            },
            Operation::Uninstall(p) => {
                if dry_run || !p.is_platform_package() {
                    removed.push(p);
                }
            },
            _ => {},
        }
        i += 1;
    }
    InstallResult { installed, updated, removed, binaries: Vec::new() }
}

/// What an update does to the files of a package.
#[derive(Debug, Clone, Copy, PartialEq, Eq, Structural)]
pub enum UpdateKind {
    /// Neither version has files.
    NoFiles,
    /// Only the old version has files: they go.
    RemoveOld,
    /// Only the new version has files: they come.
    InstallNew,
    /// The new files take the place of the old.
    Replace,
}

/// What an update does to the files of a package.
pub fn update_kind(from: &Package, to: &Package) -> (r: UpdateKind)
    ensures
        r == match (from.without_files(), to.without_files()) {
            (true, true) => UpdateKind::NoFiles,
            (false, true) => UpdateKind::RemoveOld,
            (true, false) => UpdateKind::InstallNew,
            (false, false) => UpdateKind::Replace,
        },
{
    if to.is_metapackage() {
        if from.is_metapackage() {
            UpdateKind::NoFiles
        } else {
            UpdateKind::RemoveOld
        }
    } else if from.is_metapackage() {
        UpdateKind::InstallNew
    } else {
        UpdateKind::Replace
    }
}

/// The packages among the first `n` without files, or with them, platform packages aside.
pub open spec fn with_files_or_not<'a>(packages: Seq<&'a Package>, n: int, files: bool) -> Seq<
    &'a Package,
>
    decreases n,
{
    if n <= 0 || n > packages.len() {
        Seq::empty()
    } else {
        let t = with_files_or_not(packages, n - 1, files);
        let p = packages[n - 1];
        if !platform(p.name@) && p.without_files() != files {
            t.push(p)
        } else {
            t
        }
    }
}

/// The packages without files, and those with files, platform packages aside.
pub fn split_metapackages<'a>(packages: &[&'a Package]) -> (r: (Vec<&'a Package>, Vec<&'a Package>))
    ensures
        r.0@ == with_files_or_not(packages@, packages@.len() as int, false),
        r.1@ == with_files_or_not(packages@, packages@.len() as int, true),
{
    let mut without: Vec<&'a Package> = Vec::new();
    let mut with: Vec<&'a Package> = Vec::new();
    let mut i: usize = 0;
    while i < packages.len()
        invariant
            i <= packages.len(),
            without@ == with_files_or_not(packages@, i as int, false),
            with@ == with_files_or_not(packages@, i as int, true),
        decreases packages.len() - i,
    {
        let p = packages[i];
        if !p.is_platform_package() {
            if p.is_metapackage() {
                without.push(p);
            } else {
                with.push(p);
            }
        }
        i += 1;
    }
    (without, with)
}

/// Nothing that is done concerns a platform package, unless nothing is done at all.
pub proof fn law_platform_packages_are_left_alone<'a>(ops: Seq<Operation<'a>>, n: int)
    ensures
        forall|i: int|
            0 <= i < coming(ops, n, false).len() ==> !platform(
                (#[trigger] coming(ops, n, false)[i]).name@,
            ),
        forall|i: int|
            0 <= i < going(ops, n, false).len() ==> !platform(
                (#[trigger] going(ops, n, false)[i]).name@,
            ),
        forall|i: int|
            0 <= i < changing(ops, n, false).len() ==> !platform(
                (#[trigger] changing(ops, n, false)[i]).1.name@,
            ),
    decreases n,
{
    if 0 < n <= ops.len() {
        law_platform_packages_are_left_alone(ops, n - 1);
        let a = coming(ops, n - 1, false);
        let b = going(ops, n - 1, false);
        let c = changing(ops, n - 1, false);
        assert forall|i: int| 0 <= i < coming(ops, n, false).len() implies !platform(
            (#[trigger] coming(ops, n, false)[i]).name@,
        ) by {
            if i < a.len() {
                assert(coming(ops, n, false)[i] == a[i]);
            }
        }
        assert forall|i: int| 0 <= i < going(ops, n, false).len() implies !platform(
            (#[trigger] going(ops, n, false)[i]).name@,
        ) by {
            if i < b.len() {
                assert(going(ops, n, false)[i] == b[i]);
            }
        }
        assert forall|i: int| 0 <= i < changing(ops, n, false).len() implies !platform(
            (#[trigger] changing(ops, n, false)[i]).1.name@,
        ) by {
            if i < c.len() {
                assert(changing(ops, n, false)[i] == c[i]);
            }
        }
    }
}

} // verus!
