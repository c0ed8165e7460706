//! The command `status`: what was changed by hand in the installed packages.
use vstd::prelude::*;
use vstd::string::*;

use crate::downloader::ArchiveType;
use crate::lock::opt;
use crate::paths::{join_path, joined_path, normalize_path, normalized, same_names, same_path};
use crate::sorted::{keyed, placed, put_value};
use crate::text::{
    ascii_lower, byte_len, ends_with, halves, has_suffix, join, joined, lemma_str_views_push,
    lemma_views_push, lines, lines_of, replace, replaced, split_once, str_equal, str_views,
    strip_prefix, to_ascii_lowercase, trim, trim_start, trimmed, trimmed_start, views,
    without_prefix,
};

verus! {

/// What the user asks of the command.
#[derive(Debug)]
pub struct StatusArgs {
    /// How much is told of each package.
    pub verbose: u8,
    pub no_scripts: bool,
    pub working_dir: String,
}

/// A package in the list of installed packages.
#[derive(Debug)]
pub struct InstalledPackage {
    pub name: String,
    pub version: String,
    pub version_normalized: String,
    pub package_type: String,
    pub installation_source: Option<String>,
    pub source: Option<PackageSource>,
    pub dist: Option<PackageDist>,
    pub install_path: Option<String>,
}

/// Where the sources of a package are.
#[derive(Debug)]
pub struct PackageSource {
    pub source_type: String,
    pub reference: String,
}

/// Where the archive of a package is.
#[derive(Debug)]
pub struct PackageDist {
    pub dist_type: String,
    pub url: String,
    pub reference: Option<String>,
    pub shasum: String,
}

/// A package that is at another version than the one that was installed.
#[derive(Debug)]
pub struct VersionChange {
    pub previous_version: String,
    pub previous_ref: String,
    pub current_version: String,
    pub current_ref: String,
}

/// The type of a package that names none.
pub fn default_package_type() -> (r: String)
    ensures
        r@ == "library"@,
{
    "library".to_owned()
}

/// Where a package is, where it has a place.
pub fn install_path(composer_dir: &str, package: &InstalledPackage) -> (r: Option<String>)
    ensures
        opt(r) == match package.install_path {
            Some(p) => Some(normalized(joined_path(composer_dir@, p@))),
            None => None,
        },
{
    match &package.install_path {
        Some(p) => Some(normalize_path(join_path(composer_dir, p.as_str()).as_str())),
        None => None,
    }
}

/// Where the files of a package are looked at: metapackages have none, and a package without a
/// place is passed over.
pub fn place_to_look(composer_dir: &str, package: &InstalledPackage) -> (r: Option<String>)
    ensures
        opt(r) == if package.package_type@ == "metapackage"@ {
            None
        } else {
            match package.install_path {
                Some(p) => Some(normalized(joined_path(composer_dir@, p@))),
                None => None,
            }
        },
{
    if str_equal(package.package_type.as_str(), "metapackage") {
        None
    } else {
        install_path(composer_dir, package)
    }
}

/// How a package was installed.
#[derive(Debug, Clone, Copy, PartialEq, Eq, Structural)]
pub enum Origin {
    Source,
    Dist,
    Other,
}

/// How a package was installed, by a word.
pub open spec fn origin_named(word: Seq<char>) -> Origin {
    if word == "source"@ {
        Origin::Source
    } else if word == "dist"@ {
        Origin::Dist
    } else {
        Origin::Other
    }
}

/// How a package was installed: what is noted of it, and where nothing is, an archive
/// comes before sources.
pub open spec fn origin_of(p: InstalledPackage) -> Origin {
    match p.installation_source {
        Some(s) => origin_named(s@),
        None => if p.dist is Some {
            Origin::Dist
        } else if p.source is Some {
            Origin::Source
        } else {
            Origin::Other
        },
    }
}

/// How a package was installed.
pub fn origin(p: &InstalledPackage) -> (r: Origin)
    ensures
        r == origin_of(*p),
{
    match &p.installation_source {
        Some(s) => if str_equal(s.as_str(), "source") {
            Origin::Source
        } else if str_equal(s.as_str(), "dist") {
            Origin::Dist
        } else {
            Origin::Other
        },
        None => if p.dist.is_some() {
            Origin::Dist
        } else if p.source.is_some() {
            Origin::Source
        } else {
            Origin::Other
        },
    }
}

// ---------------------------------------------------------------------------
// Changes in sources
// ---------------------------------------------------------------------------
/// What the program for a kind of sources leaves in a directory, and what it is asked.
pub open spec fn source_query_of(kind: Seq<char>) -> Option<(Seq<char>, Seq<Seq<char>>)> {
    if kind == "git"@ {
        Some((".git"@, seq!["status"@, "--porcelain"@, "--untracked-files=no"@]))
    } else if kind == "hg"@ {
        Some((".hg"@, seq!["st"@]))
    } else if kind == "svn"@ {
        Some((".svn"@, seq!["status"@, "--ignore-externals"@]))
    } else if kind == "fossil"@ {
        Some((".fslckout"@, seq!["changes"@]))
    } else {
        None
    }
}

/// What the program for a kind of sources leaves in a directory, and what it is asked.
pub fn source_query(kind: &str) -> (r: Option<(&'static str, Vec<&'static str>)>)
    ensures
        r.is_some() == source_query_of(kind@).is_some(),
        r matches Some(q) ==> (q.0@, str_views(q.1@)) == source_query_of(
            kind@,
        )->0,
{
    if str_equal(kind, "git") {
        let words = vec!["status", "--porcelain", "--untracked-files=no"];
        assert(str_views(words@) =~= seq!["status"@, "--porcelain"@, "--untracked-files=no"@]);
        Some((".git", words))
    } else if str_equal(kind, "hg") {
        let words = vec!["st"];
        assert(str_views(words@) =~= seq!["st"@]);
        Some((".hg", words))
    } else if str_equal(kind, "svn") {
        let words = vec!["status", "--ignore-externals"];
        assert(str_views(words@) =~= seq!["status"@, "--ignore-externals"@]);
        Some((".svn", words))
    } else if str_equal(kind, "fossil") {
        let words = vec!["changes"];
        assert(str_views(words@) =~= seq!["changes"@]);
        Some((".fslckout", words))
    } else {
        None
    }
}

/// What a program says of changes, where it says anything.
pub open spec fn told(output: Seq<char>) -> Option<Seq<char>> {
    if trimmed(output).len() > 0 {
        Some(trimmed(output))
    } else {
        None
    }
}

/// What a program says of changes, where it says anything.
pub fn source_local_changes(output: &str) -> (r: Option<String>)
    ensures
        opt(r) == told(output@),
{
    let t = trim(output);
    if t.is_empty() {
        None
    } else {
        Some(t.to_owned())
    }
}

// ---------------------------------------------------------------------------
// Changes against an archive
// ---------------------------------------------------------------------------
/// The kind of archive that a word names.
pub open spec fn archive_named(word: Seq<char>) -> Option<ArchiveType> {
    let w = ascii_lower(word);
    if w == "zip"@ {
        Some(ArchiveType::Zip)
    } else if w == "tar"@ {
        Some(ArchiveType::Tar)
    } else if w == "tar.gz"@ || w == "tgz"@ || w == "gzip"@ {
        Some(ArchiveType::TarGz)
    } else if w == "tar.bz2"@ || w == "tbz2"@ || w == "bzip2"@ {
        Some(ArchiveType::TarBz2)
    } else if w == "tar.xz"@ || w == "txz"@ || w == "xz"@ {
        Some(ArchiveType::TarXz)
    } else {
        None
    }
}

/// The kind of archive that a word names.
pub fn archive_type(word: &str) -> (r: Option<ArchiveType>)
    ensures
        r == archive_named(word@),
{
    let low = to_ascii_lowercase(word);
    let w = low.as_str();
    if str_equal(w, "zip") {
        Some(ArchiveType::Zip)
    } else if str_equal(w, "tar") {
        Some(ArchiveType::Tar)
    } else if str_equal(w, "tar.gz") || str_equal(w, "tgz") || str_equal(w, "gzip") {
        Some(ArchiveType::TarGz)
    } else if str_equal(w, "tar.bz2") || str_equal(w, "tbz2") || str_equal(w, "bzip2") {
        Some(ArchiveType::TarBz2)
    } else if str_equal(w, "tar.xz") || str_equal(w, "txz") || str_equal(w, "xz") {
        Some(ArchiveType::TarXz)
    } else {
        None
    }
}

/// The end of the name of an archive.
pub open spec fn extension_for(kind: ArchiveType) -> Seq<char> {
    match kind {
        ArchiveType::Zip => "zip"@,
        ArchiveType::Tar => "tar"@,
        ArchiveType::TarGz => "tar.gz"@,
        ArchiveType::TarBz2 => "tar.bz2"@,
        ArchiveType::TarXz => "tar.xz"@,
    }
}

/// The end of the name of an archive.
pub fn archive_extension(kind: ArchiveType) -> (r: &'static str)
    ensures
        r@ == extension_for(kind),
{
    match kind {
        ArchiveType::Zip => "zip",
        ArchiveType::Tar => "tar",
        ArchiveType::TarGz => "tar.gz",
        ArchiveType::TarBz2 => "tar.bz2",
        ArchiveType::TarXz => "tar.xz",
    }
}

/// Where a copy of the archive of a package is kept.
pub open spec fn kept_archive(cache_dir: Seq<char>, p: InstalledPackage, dist_type: Seq<char>)
    -> Seq<char> {
    let version = if p.version_normalized@.len() == 0 {
        p.version@
    } else {
        p.version_normalized@
    };
    joined_path(
        joined_path(joined_path(cache_dir, "files"@), p.name@),
        replaced(p.name@, "/"@, "-"@) + "-"@ + version + "."@ + dist_type,
    )
}

/// Where a copy of the archive of a package is kept.
pub fn cache_archive_path(cache_dir: &str, p: &InstalledPackage, dist_type: &str) -> (r: String)
    ensures
        r@ == kept_archive(cache_dir@, *p, dist_type@),
{
    let version = if p.version_normalized.as_str().is_empty() {
        p.version.as_str()
    } else {
        p.version_normalized.as_str()
    };
    proof {
        reveal_strlit("/");
    }
    let mut name = replace(p.name.as_str(), "/", "-");
    name.append("-");
    name.append(version);
    name.append(".");
    name.append(dist_type);
    let dir = join_path(join_path(cache_dir, "files").as_str(), p.name.as_str());
    join_path(dir.as_str(), name.as_str())
}

/// The scheme of an address, where the address is a URL.
pub uninterp spec fn scheme_of(url: Seq<char>) -> Option<Seq<char>>;

/// `url::Url::parse` and `Url::scheme`: the scheme, where the text is a URL.
#[verifier::external_body]
fn url_scheme(url: &str) -> (r: Option<String>)
    ensures
        opt(r) == scheme_of(url@),
{
    url::Url::parse(url).ok().map(|u| u.scheme().to_string())
}

/// Where the archive of a package comes from.
#[derive(Debug, Clone, Copy, PartialEq, Eq, Structural)]
pub enum ArchiveSource {
    /// The copy that was kept.
    Kept,
    /// A file that the address names.
    File,
    /// A download.
    Download,
    /// A download that is held against a checksum.
    Verified,
    /// Nowhere: the address is none.
    Nowhere,
}

/// Where the archive of a package comes from.
pub open spec fn archive_from(
    kept: bool,
    scheme: Option<Seq<char>>,
    shasum: Seq<char>,
) -> ArchiveSource {
    if kept {
        ArchiveSource::Kept
    } else {
        match scheme {
            Some(s) => if s == "file"@ {
                ArchiveSource::File
            } else if shasum.len() == 0 {
                ArchiveSource::Download
            } else {
                ArchiveSource::Verified
            },
            None => ArchiveSource::Nowhere,
        }
    }
}

/// Where an archive comes from, by the scheme of its address.
pub fn archive_source_by_scheme(kept: bool, scheme: &Option<String>, shasum: &str) -> (r:
    ArchiveSource)
    ensures
        r == archive_from(kept, opt(*scheme), shasum@),
{
    if kept {
        return ArchiveSource::Kept;
    }
    match scheme {
        Some(s) => if str_equal(s.as_str(), "file") {
            ArchiveSource::File
        } else if shasum.is_empty() {
            ArchiveSource::Download
        } else {
            ArchiveSource::Verified
        },
        None => ArchiveSource::Nowhere,
    }
}

/// Where the archive of a package comes from.
pub fn archive_source(kept: bool, dist: &PackageDist) -> (r: ArchiveSource)
    ensures
        r == archive_from(kept, scheme_of(dist.url@), dist.shasum@),
{
    archive_source_by_scheme(kept, &url_scheme(dist.url.as_str()), dist.shasum.as_str())
}

/// What stands at a path: a file by its digest, or a link by where it leads.
#[derive(Debug)]
pub enum SnapshotEntry {
    File(u64),
    Symlink(String),
}

/// The same stands at both paths.
pub open spec fn same_entry(a: SnapshotEntry, b: SnapshotEntry) -> bool {
    match (a, b) {
        (SnapshotEntry::File(x), SnapshotEntry::File(y)) => x == y,
        (SnapshotEntry::Symlink(x), SnapshotEntry::Symlink(y)) => same_names(x@, y@),
        _ => false,
    }
}

fn entries_equal(a: &SnapshotEntry, b: &SnapshotEntry) -> (r: bool)
    ensures
        r == same_entry(*a, *b),
{
    match (a, b) {
        (SnapshotEntry::File(x), SnapshotEntry::File(y)) => *x == *y,
        (SnapshotEntry::Symlink(x), SnapshotEntry::Symlink(y)) => same_path(
            x.as_str(),
            y.as_str(),
        ),
        _ => false,
    }
}

/// The same stands at the path in the tree.
pub open spec fn holds(tree: Seq<(String, SnapshotEntry)>, path: Seq<char>, entry: SnapshotEntry)
    -> bool {
    exists|i: int|
        0 <= i < tree.len() && (#[trigger] tree[i]).0@ == path && same_entry(tree[i].1, entry)
}

/// Something stands at the path in the tree.
pub open spec fn has_path(tree: Seq<(String, SnapshotEntry)>, path: Seq<char>) -> bool {
    exists|i: int| 0 <= i < tree.len() && (#[trigger] tree[i]).0@ == path
}

/// The paths among the first `n` of a tree that the other tree does not hold as they are.
pub open spec fn differing(
    tree: Seq<(String, SnapshotEntry)>,
    other: Seq<(String, SnapshotEntry)>,
    n: int,
) -> Seq<Seq<char>>
    decreases n,
{
    if n <= 0 || n > tree.len() {
        Seq::empty()
    } else {
        let t = differing(tree, other, n - 1);
        if holds(other, tree[n - 1].0@, tree[n - 1].1) {
            t
        } else {
            t.push("./"@ + tree[n - 1].0@)
        }
    }
}

/// The paths among the first `n` of a tree that the other tree does not have.
pub open spec fn added(
    tree: Seq<(String, SnapshotEntry)>,
    other: Seq<(String, SnapshotEntry)>,
    n: int,
) -> Seq<Seq<char>>
    decreases n,
{
    if n <= 0 || n > tree.len() {
        Seq::empty()
    } else {
        let t = added(tree, other, n - 1);
        if has_path(other, tree[n - 1].0@) {
            t
        } else {
            t.push("./"@ + tree[n - 1].0@)
        }
    }
}

/// The paths that were changed, taken away or added.
pub open spec fn changed_paths(
    baseline: Seq<(String, SnapshotEntry)>,
    installed: Seq<(String, SnapshotEntry)>,
) -> Seq<Seq<char>> {
    differing(baseline, installed, baseline.len() as int) + added(
        installed,
        baseline,
        installed.len() as int,
    )
}

/// The number of the entry at a path; their number where there is none.
fn find_path(tree: &Vec<(String, SnapshotEntry)>, path: &str) -> (r: usize)
    ensures
        r <= tree.len(),
        r < tree.len() ==> tree@[r as int].0@ == path@,
        has_path(tree@, path@) == (r < tree.len()),
        forall|i: int| 0 <= i < r ==> (#[trigger] tree@[i]).0@ != path@,
{
    let mut i: usize = 0;
    while i < tree.len()
        invariant
            i <= tree.len(),
            forall|k: int| 0 <= k < i ==> (#[trigger] tree@[k]).0@ != path@,
        decreases tree.len() - i,
    {
        if str_equal(tree[i].0.as_str(), path) {
            return i;
        }
        i += 1;
    }
    i
}

/// No path stands in the tree twice.
pub open spec fn paths_differ(tree: Seq<(String, SnapshotEntry)>) -> bool {
    forall|i: int, j: int|
        0 <= i < j < tree.len() ==> (#[trigger] tree[i]).0@ != (#[trigger] tree[j]).0@
}

/// The paths that were changed, taken away or added, one on a line.
pub fn tree_changes(
    baseline: &Vec<(String, SnapshotEntry)>,
    installed: &Vec<(String, SnapshotEntry)>,
) -> (r: Option<String>)
    requires
        paths_differ(installed@),
    ensures
        opt(r) == if changed_paths(baseline@, installed@).len() > 0 {
            Some(joined(changed_paths(baseline@, installed@), "\n"@))
        } else {
            None
        },
{
    let mut out: Vec<String> = Vec::new();
    let mut i: usize = 0;
    assert(views(out@) =~= differing(baseline@, installed@, 0));
    while i < baseline.len()
        invariant
            i <= baseline.len(),
            paths_differ(installed@),
            views(out@) == differing(baseline@, installed@, i as int),
        decreases baseline.len() - i,
    {
        let at: usize = find_path(installed, baseline[i].0.as_str());
        let same = at < installed.len() && entries_equal(&installed[at].1, &baseline[i].1);
        assert(same == holds(installed@, baseline@[i as int].0@, baseline@[i as int].1));
        if !same {
            let one = "./".to_owned().concat(baseline[i].0.as_str());
            proof {
                lemma_views_push(out@, one);
            }
            out.push(one);
        }
        i += 1;
    }
    let ghost start = views(out@);
    let mut j: usize = 0;
    assert(start + added(installed@, baseline@, 0) =~= start);
    while j < installed.len()
        invariant
            j <= installed.len(),
            views(out@) == start + added(installed@, baseline@, j as int),
        decreases installed.len() - j,
    {
        if find_path(baseline, installed[j].0.as_str()) == baseline.len() {
            let one = "./".to_owned().concat(installed[j].0.as_str());
            proof {
                lemma_views_push(out@, one);
            }
            out.push(one);
        }
        j += 1;
        assert(views(out@) =~= start + added(installed@, baseline@, j as int));
    }
    assert(views(out@).len() == out.len());
    if out.len() > 0 {
        Some(join(out.as_slice(), "\n"))
    } else {
        None
    }
}

/// What is noted of a package: its changes, or why they cannot be told, or that it is a
/// link.
pub open spec fn note_of(
    path: Seq<char>,
    is_symlink: bool,
    changes: Result<Option<Seq<char>>, Seq<char>>,
) -> Option<Seq<char>> {
    match changes {
        Ok(Some(c)) => Some(c),
        Err(e) => Some("Failed to detect changes: "@ + e),
        Ok(None) => if is_symlink {
            Some(path + " is a symbolic link."@)
        } else {
            None
        },
    }
}

/// What is noted of a package.
pub fn note(path: &str, is_symlink: bool, changes: &Result<Option<String>, String>) -> (r: Option<
    String,
>)
    ensures
        opt(r) == note_of(
            path@,
            is_symlink,
            match *changes {
                Ok(c) => Ok(opt(c)),
                Err(e) => Err(e@),
            },
        ),
{
    match changes {
        Ok(Some(c)) => Some(c.clone()),
        Err(e) => Some("Failed to detect changes: ".to_owned().concat(e.as_str())),
        Ok(None) => if is_symlink {
            Some(path.to_owned().concat(" is a symbolic link."))
        } else {
            None
        },
    }
}

// ---------------------------------------------------------------------------
// Unpushed changes
// ---------------------------------------------------------------------------
/// The remote branches among the first `n` lines that end with the name of the branch.
pub open spec fn remotes_of(all: Seq<Seq<char>>, branch: Seq<char>, n: int) -> Seq<Seq<char>>
    decreases n,
{
    if n <= 0 || n > all.len() {
        Seq::empty()
    } else {
        let t = remotes_of(all, branch, n - 1);
        if has_suffix(all[n - 1], "/"@ + branch) {
            t.push(all[n - 1])
        } else {
            t
        }
    }
}

/// The remote branches with the name of the branch.
pub fn remote_branches<'a>(refs: &'a str, branch: &str) -> (r: Vec<&'a str>)
    ensures
        str_views(r@) == remotes_of(lines_of(refs@), branch@, lines_of(refs@).len() as int),
{
    let all = lines(refs);
    let ghost a = str_views(all@);
    assert(a.len() == all.len());
    let end = "/".to_owned().concat(branch);
    let mut out: Vec<&'a str> = Vec::new();
    let mut i: usize = 0;
    assert(str_views(out@) =~= remotes_of(a, branch@, 0));
    while i < all.len()
        invariant
            i <= all.len(),
            a == str_views(all@),
            end@ == "/"@ + branch@,
            str_views(out@) == remotes_of(a, branch@, i as int),
        decreases all.len() - i,
    {
        assert(a[i as int] == all@[i as int]@);
        if ends_with(all[i], end.as_str()) {
            proof {
                lemma_str_views_push(out@, all@[i as int]);
            }
            out.push(all[i]);
        }
        i += 1;
    }
    out
}

/// What is said of a branch that no remote has.
pub fn unpushed_branch(branch: &str) -> (r: String)
    ensures
        r@ == "Branch "@ + branch@
            + " could not be found on any remote and appears to be unpushed"@,
{
    "Branch ".to_owned().concat(branch).concat(
        " could not be found on any remote and appears to be unpushed",
    )
}

/// What git says of differences, without tabs.
pub open spec fn bare_changes(output: Seq<char>) -> Seq<char> {
    replaced(trimmed(output), "\t"@, ""@)
}

/// The shortest of the first `n` differences that are any; the first of those that are
/// equally short.
pub open spec fn shortest_of(outputs: Seq<Seq<char>>, n: int) -> Option<Seq<char>>
    decreases n,
{
    if n <= 0 || n > outputs.len() {
        None
    } else {
        let t = shortest_of(outputs, n - 1);
        let c = bare_changes(outputs[n - 1]);
        if c.len() > 0 && (t matches Some(s) ==> byte_len(c) < byte_len(s)) {
            Some(c)
        } else {
            t
        }
    }
}

/// The shortest differences to a remote branch, where there are any.
pub fn shortest_changes(outputs: &Vec<String>) -> (r: Option<String>)
    ensures
        opt(r) == shortest_of(views(outputs@), outputs@.len() as int),
{
    let ghost all = views(outputs@);
    let mut best: Option<String> = None;
    let mut i: usize = 0;
    while i < outputs.len()
        invariant
            i <= outputs.len(),
            all == views(outputs@),
            opt(best) == shortest_of(all, i as int),
        decreases outputs.len() - i,
    {
        assert(all[i as int] == outputs@[i as int]@);
        proof {
            reveal_strlit("\t");
        }
        let c = replace(trim(outputs[i].as_str()), "\t", "");
        let shorter = match &best {
            Some(s) => c.as_str().len() < s.as_str().len(),
            None => true,
        };
        if !c.as_str().is_empty() && shorter {
            best = Some(c);
        }
        i += 1;
    }
    best
}

// ---------------------------------------------------------------------------
// Other versions
// ---------------------------------------------------------------------------
/// The commit that was installed, where it is known.
pub open spec fn previous_of(p: InstalledPackage) -> Option<Seq<char>> {
    match p.installation_source {
        Some(s) => if s@ == "source"@ {
            match p.source {
                Some(src) => Some(src.reference@),
                None => None,
            }
        } else if s@ == "dist"@ {
            match p.dist {
                Some(d) => opt(d.reference),
                None => None,
            }
        } else {
            None
        },
        None => None,
    }
}

/// The commit that was installed, where it is known.
pub fn previous_reference(p: &InstalledPackage) -> (r: Option<&str>)
    ensures
        r.is_some() == previous_of(*p).is_some(),
        r matches Some(t) ==> t@ == previous_of(*p)->0,
{
    let s = match &p.installation_source {
        Some(s) => s.as_str(),
        None => {
            return None;
        },
    };
    if str_equal(s, "source") {
        match &p.source {
            Some(src) => Some(src.reference.as_str()),
            None => None,
        }
    } else if str_equal(s, "dist") {
        match &p.dist {
            Some(d) => match &d.reference {
                Some(t) => Some(t.as_str()),
                None => None,
            },
            None => None,
        }
    } else {
        None
    }
}

/// The version of the first remote branch from line `from` on that is not the default.
pub open spec fn remote_version_from(all: Seq<Seq<char>>, from: int) -> Option<Seq<char>>
    decreases all.len() - from,
{
    if from < 0 || from >= all.len() {
        None
    } else {
        match without_prefix(all[from], "refs/remotes/"@) {
            Some(rest) => match halves(rest, '/') {
                Some((_, branch)) => if branch != "HEAD"@ {
                    Some("dev-"@ + branch)
                } else {
                    remote_version_from(all, from + 1)
                },
                None => remote_version_from(all, from + 1),
            },
            None => remote_version_from(all, from + 1),
        }
    }
}

/// The version of the first remote branch that holds the commit.
pub fn git_remote_branch_version(refs: &str) -> (r: Option<String>)
    ensures
        opt(r) == remote_version_from(lines_of(refs@), 0),
{
    let all = lines(refs);
    let ghost a = str_views(all@);
    assert(a.len() == all.len());
    let mut i: usize = 0;
    while i < all.len()
        invariant
            i <= all.len(),
            a == str_views(all@),
            a.len() == all.len(),
            a == lines_of(refs@),
            remote_version_from(a, 0) == remote_version_from(a, i as int),
        decreases all.len() - i,
    {
        assert(a[i as int] == all@[i as int]@);
        if let Some(rest) = strip_prefix(all[i], "refs/remotes/") {
            if let Some(sides) = split_once(rest, '/') {
                if !str_equal(sides.1, "HEAD") {
                    return Some("dev-".to_owned().concat(sides.1));
                }
            }
        }
        i += 1;
    }
    None
}

/// The version that a package is at: its tag, else its branch, else a remote branch that
/// holds it. What git says of each is `None` where it fails.
pub open spec fn current_of(
    tag: Option<Seq<char>>,
    branch: Option<Seq<char>>,
    refs: Option<Seq<char>>,
) -> Seq<char> {
    if tag matches Some(t) && trimmed(t).len() > 0 {
        trimmed(tag->0)
    } else if branch is Some {
        "dev-"@ + trimmed(branch->0)
    } else {
        match refs {
            Some(r) => match remote_version_from(lines_of(r), 0) {
                Some(v) => v,
                None => ""@,
            },
            None => ""@,
        }
    }
}

/// The version that a package is at.
pub fn current_version(tag: &Option<String>, branch: &Option<String>, refs: &Option<String>) -> (r:
    String)
    ensures
        r@ == current_of(opt(*tag), opt(*branch), opt(*refs)),
{
    if let Some(t) = tag {
        let t = trim(t.as_str());
        if !t.is_empty() {
            return t.to_owned();
        }
    }
    if let Some(b) = branch {
        return "dev-".to_owned().concat(trim(b.as_str()));
    }
    if let Some(l) = refs {
        if let Some(v) = git_remote_branch_version(l.as_str()) {
            return v;
        }
    }
    "".to_owned()
}

/// What became of the version of a package, where its commit is another than the one that
/// was installed.
pub fn git_version_change(p: &InstalledPackage, head: &str, current: &str) -> (r: Option<
    VersionChange,
>)
    ensures
        r.is_some() == (previous_of(*p) matches Some(prev) && trimmed(head@) != prev),
        r matches Some(c) ==> {
            &&& c.previous_version@ == p.version@
            &&& c.previous_ref@ == previous_of(*p)->0
            &&& c.current_version@ == current@
            &&& c.current_ref@ == trimmed(head@)
        },
{
    match previous_reference(p) {
        None => None,
        Some(prev) => {
            let now = trim(head);
            if str_equal(now, prev) {
                None
            } else {
                Some(
                    VersionChange {
                        previous_version: p.version.clone(),
                        previous_ref: prev.to_owned(),
                        current_version: current.to_owned(),
                        current_ref: now.to_owned(),
                    },
                )
            }
        },
    }
}

// ---------------------------------------------------------------------------
// What is said
// ---------------------------------------------------------------------------
/// What was found in the packages, by the place of the package.
#[derive(Debug)]
pub struct Findings {
    pub errors: Vec<(String, String)>,
    pub unpushed: Vec<(String, String)>,
    pub versions: Vec<(String, VersionChange)>,
}

impl Findings {
    /// Nothing was found.
    pub fn new() -> (r: Findings)
        ensures
            r.errors@.len() == 0,
            r.unpushed@.len() == 0,
            r.versions@.len() == 0,
    {
        Findings { errors: Vec::new(), unpushed: Vec::new(), versions: Vec::new() }
    }

    /// Notes what was found in one package.
    pub fn record(
        &mut self,
        path: &str,
        error: Option<String>,
        unpushed: Option<String>,
        version: Option<VersionChange>,
    )
        ensures
            keyed(final(self).errors@) == match error {
                Some(e) => placed(keyed(old(self).errors@), path@, e),
                None => keyed(old(self).errors@),
            },
            keyed(final(self).unpushed@) == match unpushed {
                Some(u) => placed(keyed(old(self).unpushed@), path@, u),
                None => keyed(old(self).unpushed@),
            },
            keyed(final(self).versions@) == match version {
                Some(v) => placed(keyed(old(self).versions@), path@, v),
                None => keyed(old(self).versions@),
            },
    {
        if let Some(e) = error {
            put_value(&mut self.errors, path, e);
        }
        if let Some(u) = unpushed {
            put_value(&mut self.unpushed, path, u);
        }
        if let Some(v) = version {
            put_value(&mut self.versions, path, v);
        }
    }
}

/// A line for the standard output or the standard error.
#[derive(Debug)]
pub enum Line {
    Stdout(String),
    Stderr(String),
}

/// What a line says, and where.
pub enum LineView {
    Stdout(Seq<char>),
    Stderr(Seq<char>),
}

impl View for Line {
    type V = LineView;

    open spec fn view(&self) -> LineView {
        match *self {
            Line::Stdout(t) => LineView::Stdout(t@),
            Line::Stderr(t) => LineView::Stderr(t@),
        }
    }
}

/// What the lines say.
pub open spec fn line_views(v: Seq<Line>) -> Seq<LineView> {
    v.map_values(|l: Line| l@)
}

fn out_line(v: &mut Vec<Line>, t: String)
    ensures
        line_views(final(v)@) == line_views(old(v)@).push(LineView::Stdout(t@)),
{
    let ghost before = line_views(v@);
    v.push(Line::Stdout(t));
    assert(line_views(v@) =~= before.push(LineView::Stdout(t@)));
}

fn err_line(v: &mut Vec<Line>, t: &str)
    ensures
        line_views(final(v)@) == line_views(old(v)@).push(LineView::Stderr(t@)),
{
    let ghost before = line_views(v@);
    let one = Line::Stderr(t.to_owned());
    v.push(one);
    assert(line_views(v@) =~= before.push(one@));
}

/// The lines followed by the first `n` of a detail, indented.
pub open spec fn detail_lines(out: Seq<LineView>, detail: Seq<Seq<char>>, n: int) -> Seq<LineView>
    decreases n,
{
    if n <= 0 || n > detail.len() {
        out
    } else {
        detail_lines(out, detail, n - 1).push(
            LineView::Stdout("    "@ + trimmed_start(detail[n - 1])),
        )
    }
}

/// The lines followed by the first `n` changes.
pub open spec fn change_lines(
    out: Seq<LineView>,
    changes: Seq<(String, String)>,
    n: int,
    verbose: bool,
) -> Seq<LineView>
    decreases n,
{
    if n <= 0 || n > changes.len() {
        out
    } else {
        let t = change_lines(out, changes, n - 1, verbose);
        let path = changes[n - 1].0@;
        let detail = lines_of(changes[n - 1].1@);
        if verbose {
            detail_lines(t.push(LineView::Stdout(path + ":"@)), detail, detail.len() as int)
        } else {
            t.push(LineView::Stdout(path))
        }
    }
}

fn write_changes(out: &mut Vec<Line>, changes: &Vec<(String, String)>, verbose: bool)
    ensures
        line_views(final(out)@) == change_lines(
            line_views(old(out)@),
            changes@,
            changes@.len() as int,
            verbose,
        ),
{
    let ghost start = line_views(out@);
    let mut i: usize = 0;
    while i < changes.len()
        invariant
            i <= changes.len(),
            line_views(out@) == change_lines(start, changes@, i as int, verbose),
        decreases changes.len() - i,
    {
        let path = changes[i].0.as_str();
        if verbose {
            out_line(out, path.to_owned().concat(":"));
            let ghost head = line_views(out@);
            let detail = lines(changes[i].1.as_str());
            let ghost d = str_views(detail@);
            assert(d.len() == detail.len());
            let mut j: usize = 0;
            while j < detail.len()
                invariant
                    j <= detail.len(),
                    d == str_views(detail@),
                    line_views(out@) == detail_lines(head, d, j as int),
                decreases detail.len() - j,
            {
                assert(d[j as int] == detail@[j as int]@);
                out_line(out, "    ".to_owned().concat(trim_start(detail[j])));
                j += 1;
            }
        } else {
            out_line(out, path.to_owned());
        }
        i += 1;
    }
}

/// A version, or the commit where the version is not known; the commit behind it where much
/// is told.
pub open spec fn shown_version(version: Seq<char>, reference: Seq<char>, verbose: u8) -> Seq<char> {
    let t = if version.len() == 0 {
        reference
    } else {
        version
    };
    if verbose > 1 {
        t + (" ("@ + reference + ")"@)
    } else {
        t
    }
}

fn show_version(version: &str, reference: &str, verbose: u8) -> (r: String)
    ensures
        r@ == shown_version(version@, reference@, verbose),
{
    let t = if version.is_empty() {
        reference.to_owned()
    } else {
        version.to_owned()
    };
    if verbose > 1 {
        t.concat(" (".to_owned().concat(reference).concat(")").as_str())
    } else {
        t
    }
}

/// The lines followed by the first `n` packages at other versions.
pub open spec fn version_lines(
    out: Seq<LineView>,
    changes: Seq<(String, VersionChange)>,
    n: int,
    verbose: u8,
) -> Seq<LineView>
    decreases n,
{
    if n <= 0 || n > changes.len() {
        out
    } else {
        let t = version_lines(out, changes, n - 1, verbose);
        let path = changes[n - 1].0@;
        let c = changes[n - 1].1;
        if verbose > 0 {
            t.push(LineView::Stdout(path + ":"@)).push(
                LineView::Stdout(
                    "    From "@ + shown_version(c.previous_version@, c.previous_ref@, verbose)
                        + " to "@ + shown_version(c.current_version@, c.current_ref@, verbose),
                ),
            )
        } else {
            t.push(LineView::Stdout(path))
        }
    }
}

fn write_versions(out: &mut Vec<Line>, changes: &Vec<(String, VersionChange)>, verbose: u8)
    ensures
        line_views(final(out)@) == version_lines(
            line_views(old(out)@),
            changes@,
            changes@.len() as int,
            verbose,
        ),
{
    let ghost start = line_views(out@);
    let mut i: usize = 0;
    while i < changes.len()
        invariant
            i <= changes.len(),
            line_views(out@) == version_lines(start, changes@, i as int, verbose),
        decreases changes.len() - i,
    {
        let path = changes[i].0.as_str();
        if verbose > 0 {
            let c = &changes[i].1;
            out_line(out, path.to_owned().concat(":"));
            let mut t = "    From ".to_owned();
            t.append(
                show_version(c.previous_version.as_str(), c.previous_ref.as_str(), verbose).as_str(),
            );
            t.append(" to ");
            t.append(
                show_version(c.current_version.as_str(), c.current_ref.as_str(), verbose).as_str(),
            );
            out_line(out, t);
        } else {
            out_line(out, path.to_owned());
        }
        i += 1;
    }
}

/// Nothing was found.
pub open spec fn is_clean(f: Findings) -> bool {
    f.errors@.len() == 0 && f.unpushed@.len() == 0 && f.versions@.len() == 0
}

/// The report.
pub open spec fn report_lines(f: Findings, verbose: u8) -> Seq<LineView> {
    if is_clean(f) {
        Seq::empty().push(LineView::Stderr("No local changes"@))
    } else {
        let a = if f.errors@.len() > 0 {
            change_lines(
                Seq::empty().push(
                    LineView::Stderr("You have changes in the following dependencies:"@),
                ),
                f.errors@,
                f.errors@.len() as int,
                verbose > 0,
            )
        } else {
            Seq::empty()
        };
        let b = if f.unpushed@.len() > 0 {
            change_lines(
                a.push(
                    LineView::Stderr(
                        "You have unpushed changes on the current branch in the following dependencies:"@,
                    ),
                ),
                f.unpushed@,
                f.unpushed@.len() as int,
                verbose > 0,
            )
        } else {
            a
        };
        let c = if f.versions@.len() > 0 {
            version_lines(
                b.push(
                    LineView::Stderr("You have version variations in the following dependencies:"@),
                ),
                f.versions@,
                f.versions@.len() as int,
                verbose,
            )
        } else {
            b
        };
        if verbose == 0 {
            c.push(LineView::Stderr("Use --verbose (-v) to see a list of files"@))
        } else {
            c
        }
    }
}

/// The report.
pub fn report(f: &Findings, verbose: u8) -> (r: Vec<Line>)
    ensures
        line_views(r@) == report_lines(*f, verbose),
{
    let mut out: Vec<Line> = Vec::new();
    assert(line_views(out@) =~= Seq::empty());
    if f.errors.len() == 0 && f.unpushed.len() == 0 && f.versions.len() == 0 {
        err_line(&mut out, "No local changes");
        return out;
    }
    if f.errors.len() > 0 {
        err_line(&mut out, "You have changes in the following dependencies:");
        write_changes(&mut out, &f.errors, verbose > 0);
    }
    if f.unpushed.len() > 0 {
        err_line(
            &mut out,
            "You have unpushed changes on the current branch in the following dependencies:",
        );
        write_changes(&mut out, &f.unpushed, verbose > 0);
    }
    if f.versions.len() > 0 {
        err_line(&mut out, "You have version variations in the following dependencies:");
        write_versions(&mut out, &f.versions, verbose);
    }
    if verbose == 0 {
        err_line(&mut out, "Use --verbose (-v) to see a list of files");
    }
    out
}

/// The exit code: one for changes, two for unpushed changes and four for other versions,
/// added up.
pub open spec fn code_of(f: Findings) -> int {
    (if f.errors@.len() > 0 {
        1int
    } else {
        0
    }) + (if f.unpushed@.len() > 0 {
        2int
    } else {
        0
    }) + (if f.versions@.len() > 0 {
        4int
    } else {
        0
    })
}

/// The exit code.
pub fn exit_code(f: &Findings) -> (r: i32)
    ensures
        r == code_of(*f),
{
    let mut code: i32 = 0;
    if f.errors.len() > 0 {
        code += 1;
    }
    if f.unpushed.len() > 0 {
        code += 2;
    }
    if f.versions.len() > 0 {
        code += 4;
    }
    code
}

/// The exit code of the command: that of a script that fails, else its own.
pub fn final_code(script: Option<i32>, own: i32) -> (r: i32)
    ensures
        r == match script {
            Some(c) => if c != 0 {
                c
            } else {
                own
            },
            None => own,
        },
{
    match script {
        Some(c) => if c != 0 {
            c
        } else {
            own
        },
        None => own,
    }
}

// ---------------------------------------------------------------------------
// What holds of it
// ---------------------------------------------------------------------------
/// The exit code tells what was found.
pub proof fn law_code_tells_what_was_found(f: Findings)
    ensures
        (code_of(f) % 2 == 1) == (f.errors@.len() > 0),
        ((code_of(f) / 2) % 2 == 1) == (f.unpushed@.len() > 0),
        ((code_of(f) / 4) % 2 == 1) == (f.versions@.len() > 0),
        (code_of(f) == 0) == is_clean(f),
{
}

/// No change is found exactly where both trees hold the same at the same paths.
pub proof fn law_no_change_means_same_tree(
    baseline: Seq<(String, SnapshotEntry)>,
    installed: Seq<(String, SnapshotEntry)>,
)
    ensures
        changed_paths(baseline, installed).len() == 0 <==> (forall|i: int|
            0 <= i < baseline.len() ==> holds(
                installed,
                (#[trigger] baseline[i]).0@,
                baseline[i].1,
            )) && (forall|i: int|
            0 <= i < installed.len() ==> has_path(baseline, (#[trigger] installed[i]).0@)),
{
    lemma_differing(baseline, installed, baseline.len() as int);
    lemma_added(installed, baseline, installed.len() as int);
}

proof fn lemma_differing(
    tree: Seq<(String, SnapshotEntry)>,
    other: Seq<(String, SnapshotEntry)>,
    n: int,
)
    requires
        0 <= n <= tree.len(),
    ensures
        differing(tree, other, n).len() == 0 <==> forall|i: int|
            0 <= i < n ==> holds(other, (#[trigger] tree[i]).0@, tree[i].1),
    decreases n,
{
    if n > 0 {
        lemma_differing(tree, other, n - 1);
    }
}

proof fn lemma_added(
    tree: Seq<(String, SnapshotEntry)>,
    other: Seq<(String, SnapshotEntry)>,
    n: int,
)
    requires
        0 <= n <= tree.len(),
    ensures
        added(tree, other, n).len() == 0 <==> forall|i: int|
            0 <= i < n ==> has_path(other, (#[trigger] tree[i]).0@),
    decreases n,
{
    if n > 0 {
        lemma_added(tree, other, n - 1);
    }
}

} // verus!
