//! Getting the files of a package: from where, into which archive, and what of an
//! archive goes where.
use vstd::prelude::*;
use vstd::string::*;

use crate::error::ComposerError;

use crate::json::{Json, JsonView};
use crate::package::{Dist, Package, Source};
use crate::paths::{join_path, joined_path};
use crate::text::{
    after, before, contains, ends_with, find_char, find_from, has_infix, has_prefix, has_suffix,
    join, joined, lemma_views_push, lowercase, replace, replaced, starts_with, str_equal,
    to_lowercase, views,
};

verus! {

// ---------------------------------------------------------------------------
// Kinds of archives
// ---------------------------------------------------------------------------
/// The kinds of archives that can be unpacked.
#[derive(Debug, Clone, Copy, PartialEq, Eq, Structural)]
pub enum ArchiveType {
    Zip,
    Tar,
    TarGz,
    TarBz2,
    TarXz,
}

impl ArchiveType {
    /// The kind that the end of a file name tells.
    pub open spec fn by_name(path: Seq<char>) -> Option<ArchiveType> {
        let p = lowercase(path);
        if has_suffix(p, ".zip"@) {
            Some(ArchiveType::Zip)
        } else if has_suffix(p, ".tar.gz"@) || has_suffix(p, ".tgz"@) {
            Some(ArchiveType::TarGz)
        } else if has_suffix(p, ".tar.bz2"@) || has_suffix(p, ".tbz2"@) {
            Some(ArchiveType::TarBz2)
        } else if has_suffix(p, ".tar.xz"@) || has_suffix(p, ".txz"@) {
            Some(ArchiveType::TarXz)
        } else if has_suffix(p, ".tar"@) {
            Some(ArchiveType::Tar)
        } else {
            None
        }
    }

    /// The kind that the end of a file name tells.
    pub fn from_path(path: &str) -> (r: Option<ArchiveType>)
        ensures
            r == ArchiveType::by_name(path@),
    {
        let lower = to_lowercase(path);
        let p = lower.as_str();
        if ends_with(p, ".zip") {
            Some(ArchiveType::Zip)
        } else if ends_with(p, ".tar.gz") || ends_with(p, ".tgz") {
            Some(ArchiveType::TarGz)
        } else if ends_with(p, ".tar.bz2") || ends_with(p, ".tbz2") {
            Some(ArchiveType::TarBz2)
        } else if ends_with(p, ".tar.xz") || ends_with(p, ".txz") {
            Some(ArchiveType::TarXz)
        } else if ends_with(p, ".tar") {
            Some(ArchiveType::Tar)
        } else {
            None
        }
    }

    /// The kind that the type of a response tells.
    pub open spec fn by_content(content_type: Seq<char>) -> Option<ArchiveType> {
        let c = lowercase(content_type);
        if has_infix(c, "gzip"@) || has_infix(c, "x-gzip"@) {
            Some(ArchiveType::TarGz)
        } else if has_infix(c, "bzip2"@) || has_infix(c, "x-bzip2"@) {
            Some(ArchiveType::TarBz2)
        } else if has_infix(c, "x-xz"@) {
            Some(ArchiveType::TarXz)
        } else if has_infix(c, "x-tar"@) {
            Some(ArchiveType::Tar)
        } else if has_infix(c, "zip"@) {
            Some(ArchiveType::Zip)
        } else {
            None
        }
    }

    /// The kind that the type of a response tells.
    pub fn from_content_type(content_type: &str) -> (r: Option<ArchiveType>)
        ensures
            r == ArchiveType::by_content(content_type@),
    {
        let lower = to_lowercase(content_type);
        let c = lower.as_str();
        if contains(c, "gzip") || contains(c, "x-gzip") {
            Some(ArchiveType::TarGz)
        } else if contains(c, "bzip2") || contains(c, "x-bzip2") {
            Some(ArchiveType::TarBz2)
        } else if contains(c, "x-xz") {
            Some(ArchiveType::TarXz)
        } else if contains(c, "x-tar") {
            Some(ArchiveType::Tar)
        } else if contains(c, "zip") {
            Some(ArchiveType::Zip)
        } else {
            None
        }
    }

    /// The end of a file name for the kind.
    pub fn extension(self) -> (r: &'static str)
        ensures
            r@ == match self {
                ArchiveType::Zip => "zip"@,
                ArchiveType::Tar => "tar"@,
                ArchiveType::TarGz => "tar.gz"@,
                ArchiveType::TarBz2 => "tar.bz2"@,
                ArchiveType::TarXz => "tar.xz"@,
            },
    {
        match self {
            ArchiveType::Zip => "zip",
            ArchiveType::Tar => "tar",
            ArchiveType::TarGz => "tar.gz",
            ArchiveType::TarBz2 => "tar.bz2",
            ArchiveType::TarXz => "tar.xz",
        }
    }
}

// ---------------------------------------------------------------------------
// Entries of archives
// ---------------------------------------------------------------------------
/// The directory that the first name starts with, where every name starts with it.
pub open spec fn shared_directory(names: Seq<Seq<char>>) -> Option<Seq<char>> {
    if names.len() == 0 {
        None
    } else {
        let at = find_from(names[0], '/', 0);
        if at >= names[0].len() {
            None
        } else {
            let dir = before(names[0], at + 1);
            if forall|i: int| 0 <= i < names.len() ==> has_prefix(#[trigger] names[i], dir) {
                Some(dir)
            } else {
                None
            }
        }
    }
}

/// The directory that every entry of an archive stands in.
pub fn find_zip_common_prefix(names: &Vec<String>) -> (r: Option<String>)
    ensures
        r.is_some() == shared_directory(views(names@)).is_some(),
        r matches Some(d) ==> d@ == shared_directory(views(names@))->0,
{
    let ghost all = views(names@);
    if names.len() == 0 {
        return None;
    }
    assert(all[0] == names@[0]@);
    let first = crate::text::chars_of(names[0].as_str());
    let at: usize = find_char(&first, '/', 0);
    if at == first.len() {
        return None;
    }
    let dir = crate::text::string_of(&first, 0, at + 1);
    let mut i: usize = 0;
    while i < names.len()
        invariant
            i <= names.len(),
            all == views(names@),
            all.len() > 0,
            find_from(all[0], '/', 0) < all[0].len(),
            dir@ == before(all[0], find_from(all[0], '/', 0) + 1),
            forall|k: int| 0 <= k < i ==> has_prefix(#[trigger] all[k], dir@),
        decreases names.len() - i,
    {
        assert(all[i as int] == names@[i as int]@);
        if !starts_with(names[i].as_str(), dir.as_str()) {
            return None;
        }
        i += 1;
    }
    Some(dir)
}

/// Unpacks archives.
#[derive(Debug, Clone, Copy)]
pub struct ArchiveExtractor;

impl ArchiveExtractor {
    /// The kind of an archive, by its name.
    pub fn archive_type(path: &str) -> (r: Result<ArchiveType, ComposerError>)
        ensures
            match ArchiveType::by_name(path@) {
                Some(t) => r == Ok::<ArchiveType, ComposerError>(t),
                None => r is Err && r->Err_0@ == "Installation failed: "@ + (
                "Unknown archive type: "@ + path@),
            },
    {
        match ArchiveType::from_path(path) {
            Some(t) => Ok(t),
            None => Err(
                ComposerError::InstallationFailed(
                    "Unknown archive type: ".to_owned().concat(path),
                ),
            ),
        }
    }
}

/// What becomes of an entry of an archive.
#[derive(Debug)]
pub enum Placement {
    /// Nothing is left of its path.
    Skip,
    /// Its path leads upwards.
    Refuse(String),
    /// It goes to a path.
    Place(String),
}

/// What becomes of an entry.
pub enum PlacementView {
    Skip,
    Refuse(Seq<char>),
    Place(Seq<char>),
}

impl View for Placement {
    type V = PlacementView;

    open spec fn view(&self) -> PlacementView {
        match self {
            Placement::Skip => PlacementView::Skip,
            Placement::Refuse(s) => PlacementView::Refuse(s@),
            Placement::Place(s) => PlacementView::Place(s@),
        }
    }
}

/// What becomes of an entry whose first `strip` names are dropped. Two dots in a row
/// anywhere in what is left are refused.
pub open spec fn placed(names: Seq<Seq<char>>, strip: int, dest: Seq<char>) -> PlacementView {
    if names.len() <= strip {
        PlacementView::Skip
    } else {
        let rest = joined(names.skip(strip), "/"@);
        if rest.len() == 0 {
            PlacementView::Skip
        } else if has_infix(rest, ".."@) {
            PlacementView::Refuse(rest)
        } else {
            PlacementView::Place(joined_path(dest, rest))
        }
    }
}

/// What becomes of an entry of a tar archive, given the names in its path.
pub fn place_entry(names: &Vec<String>, strip: usize, dest: &str) -> (r: Placement)
    ensures
        r@ == placed(views(names@), strip as int, dest@),
{
    let ghost all = views(names@);
    assert(all.len() == names.len());
    if names.len() <= strip {
        return Placement::Skip;
    }
    let mut rest: Vec<String> = Vec::new();
    let mut i: usize = strip;
    while i < names.len()
        invariant
            strip <= i <= names.len(),
            all == views(names@),
            views(rest@) == all.subrange(strip as int, i as int),
        decreases names.len() - i,
    {
        let one = names[i].clone();
        proof {
            lemma_views_push(rest@, one);
        }
        rest.push(one);
        i += 1;
        assert(views(rest@) =~= all.subrange(strip as int, i as int));
    }
    assert(views(rest@) =~= all.skip(strip as int));
    let path = join(rest.as_slice(), "/");
    if path.as_str().is_empty() {
        return Placement::Skip;
    }
    if contains(path.as_str(), "..") {
        return Placement::Refuse(path);
    }
    Placement::Place(join_path(dest, path.as_str()))
}

/// The names of an entry behind the directory that all entries share.
pub open spec fn behind_shared(names: Seq<Seq<char>>, shared: Option<Seq<char>>) -> Seq<Seq<char>> {
    match shared {
        Some(dir) if names.len() > 0 && names[0] + "/"@ == dir => names.skip(1),
        _ => names,
    }
}

/// What becomes of an entry of a zip archive. `names` are those in its path, where the path
/// stays below the archive's root.
pub open spec fn zip_placed(
    path: Seq<char>,
    names: Option<Seq<Seq<char>>>,
    shared: Option<Seq<char>>,
    dest: Seq<char>,
) -> PlacementView {
    match names {
        None => PlacementView::Refuse(path),
        Some(all) => {
            let rest = behind_shared(all, shared);
            if rest.len() == 0 {
                PlacementView::Skip
            } else {
                PlacementView::Place(joined_path(dest, joined(rest, "/"@)))
            }
        },
    }
}

/// What becomes of an entry of a zip archive, given the names in its path where the path stays
/// below the archive's root, and the directory that all entries share: a path that does not is
/// refused, and the shared directory is cut off.
pub fn place_zip_entry(
    path: &str,
    names: Option<&Vec<String>>,
    shared: Option<&str>,
    dest: &str,
) -> (r: Placement)
    ensures
        r@ == zip_placed(
            path@,
            match names {
                Some(v) => Some(views(v@)),
                None => None,
            },
            match shared {
                Some(d) => Some(d@),
                None => None,
            },
            dest@,
        ),
{
    let names = match names {
        Some(v) => v,
        None => {
            return Placement::Refuse(path.to_owned());
        },
    };
    let ghost all = views(names@);
    assert(all.len() == names.len());
    let mut i: usize = 0;
    if let Some(dir) = shared {
        if names.len() > 0 {
            assert(all[0] == names@[0]@);
            if str_equal(names[0].clone().concat("/").as_str(), dir) {
                i = 1;
            }
        }
    }
    if i >= names.len() {
        return Placement::Skip;
    }
    let ghost first = i as int;
    let ghost rest_names = behind_shared(
        all,
        match shared {
            Some(d) => Some(d@),
            None => None,
        },
    );
    assert(rest_names =~= all.skip(first));
    let mut rest: Vec<String> = Vec::new();
    while i < names.len()
        invariant
            first <= i <= names.len(),
            0 <= first,
            all == views(names@),
            all.len() == names.len(),
            views(rest@) == all.subrange(first, i as int),
        decreases names.len() - i,
    {
        let one = names[i].clone();
        proof {
            lemma_views_push(rest@, one);
        }
        rest.push(one);
        i += 1;
        assert(views(rest@) =~= all.subrange(first, i as int));
    }
    assert(views(rest@) =~= all.skip(first));
    Placement::Place(join_path(dest, join(rest.as_slice(), "/").as_str()))
}

/// An entry is placed below the destination: behind its path, with no name that leads
/// upwards, unless the entry's own path starts at the root.
pub proof fn law_entries_stay_below(names: Seq<Seq<char>>, strip: int, dest: Seq<char>)
    requires
        0 <= strip < names.len(),
        names[strip].len() > 0,
        names[strip][0] != '/',
    ensures
        placed(names, strip, dest) matches PlacementView::Place(p) ==> has_prefix(p, dest)
            && !has_infix(joined(names.skip(strip), "/"@), ".."@),
{
    let rest = joined(names.skip(strip), "/"@);
    if placed(names, strip, dest) is Place {
        lemma_joined_head(names.skip(strip), "/"@);
        assert(rest[0] == names[strip][0]);
        let p = joined_path(dest, rest);
        assert(p.subrange(0, dest.len() as int) =~= dest);
    }
}

/// An entry of a zip archive is placed below the destination, behind its path, unless a name in
/// it starts at the root.
pub proof fn law_zip_entries_stay_below(
    path: Seq<char>,
    names: Seq<Seq<char>>,
    shared: Option<Seq<char>>,
    dest: Seq<char>,
)
    requires
        forall|i: int|
            0 <= i < names.len() ==> (#[trigger] names[i]).len() > 0 && names[i][0] != '/',
    ensures
        zip_placed(path, Some(names), shared, dest) matches PlacementView::Place(p) ==> has_prefix(
            p,
            dest,
        ),
{
    let rest = behind_shared(names, shared);
    if rest.len() > 0 {
        assert(rest[0] == names[0] || rest[0] == names[1]);
        lemma_joined_head(rest, "/"@);
        let p = joined_path(dest, joined(rest, "/"@));
        assert(p.subrange(0, dest.len() as int) =~= dest);
    }
}

proof fn lemma_joined_head(parts: Seq<Seq<char>>, sep: Seq<char>)
    requires
        parts.len() > 0,
        parts[0].len() > 0,
    ensures
        joined(parts, sep).len() > 0,
        joined(parts, sep)[0] == parts[0][0],
    decreases parts.len(),
{
    if parts.len() > 1 {
        lemma_joined_head(parts.drop_last(), sep);
    }
}

// ---------------------------------------------------------------------------
// From where
// ---------------------------------------------------------------------------
/// How packages are got.
#[derive(Debug, Clone)]
pub struct DownloadConfig {
    pub prefer_source: bool,
    pub prefer_dist: bool,
    /// Where archives are kept.
    pub cache_dir: String,
    /// Where packages are installed.
    pub vendor_dir: String,
}

impl Default for DownloadConfig {
    fn default() -> (r: DownloadConfig)
        ensures
            !r.prefer_source,
            r.prefer_dist,
            r.cache_dir@ == ".composer/cache"@,
            r.vendor_dir@ == "vendor"@,
    {
        DownloadConfig {
            prefer_source: false,
            prefer_dist: true,
            cache_dir: ".composer/cache".to_owned(),
            vendor_dir: "vendor".to_owned(),
        }
    }
}

/// What getting a package came to.
#[derive(Debug, Clone)]
pub struct DownloadResult {
    pub path: String,
    pub from_cache: bool,
    /// The package was there already.
    pub skipped: bool,
}

/// From where a package is got.
#[derive(Debug, Clone, Copy, PartialEq, Eq, Structural)]
pub enum Origin {
    /// A local directory.
    Path,
    /// Its source.
    Source,
    /// Its archive.
    Dist,
    /// There is neither.
    Nowhere,
}

impl DownloadConfig {
    /// The source is taken: always for a branch, else where it is preferred and there.
    pub open spec fn takes_source(&self, p: Package) -> bool {
        p.follows_branch() || (self.prefer_source && p.source is Some)
    }

    /// Whether the source is taken.
    pub fn should_use_source(&self, package: &Package) -> (r: bool)
        ensures
            r == self.takes_source(*package),
    {
        if package.is_dev() {
            return true;
        }
        if self.prefer_source {
            return package.source.is_some();
        }
        false
    }

    /// From where a package is got: a local directory where its archive is one, the
    /// source where it is taken and there, the archive where it is there, else the source.
    pub open spec fn origin_of(&self, p: Package) -> Origin {
        if p.dist matches Some(d) && d.dist_type@ == "path"@ {
            Origin::Path
        } else if self.takes_source(p) && p.source is Some {
            Origin::Source
        } else if p.dist is Some {
            Origin::Dist
        } else if p.source is Some {
            Origin::Source
        } else {
            Origin::Nowhere
        }
    }

    /// From where a package is got.
    pub fn origin(&self, package: &Package) -> (r: Origin)
        ensures
            r == self.origin_of(*package),
    {
        if let Some(d) = &package.dist {
            if str_equal(d.dist_type.as_str(), "path") {
                return Origin::Path;
            }
        }
        if self.should_use_source(package) && package.source.is_some() {
            return Origin::Source;
        }
        if package.dist.is_some() {
            return Origin::Dist;
        }
        if package.source.is_some() {
            return Origin::Source;
        }
        Origin::Nowhere
    }

    /// Where a package is installed.
    pub fn package_path(&self, package: &Package) -> (r: String)
        ensures
            r@ == joined_path(self.vendor_dir@, package.name@),
    {
        join_path(self.vendor_dir.as_str(), package.name.as_str())
    }

    /// The file that an archive is kept in.
    pub open spec fn archive_path(&self, p: Package, kind: Seq<char>) -> Seq<char> {
        joined_path(
            joined_path(joined_path(self.cache_dir@, "files"@), p.name@),
            replaced(p.name@, "/"@, "-"@) + "-"@ + p.version@ + "."@ + kind,
        )
    }

    /// The file that an archive is kept in.
    pub fn cache_path(&self, package: &Package, archive_type: &str) -> (r: String)
        ensures
            r@ == self.archive_path(*package, archive_type@),
    {
        proof {
            reveal_strlit("/");
        }
        let safe = replace(package.name.as_str(), "/", "-");
        let file = safe.concat("-").concat(package.version.as_str()).concat(".").concat(
            archive_type,
        );
        let files = join_path(self.cache_dir.as_str(), "files");
        let dir = join_path(files.as_str(), package.name.as_str());
        join_path(dir.as_str(), file.as_str())
    }
}

/// A package that has an archive or a source can be got.
pub proof fn law_available_packages_are_got(config: DownloadConfig, p: Package)
    ensures
        config.origin_of(p) == Origin::Nowhere <==> p.dist is None && p.source is None,
        config.origin_of(p) == Origin::Source ==> p.source is Some,
        config.origin_of(p) == Origin::Dist ==> p.dist is Some,
        config.origin_of(p) == Origin::Path ==> p.dist is Some,
{
}

// ---------------------------------------------------------------------------
// Archives
// ---------------------------------------------------------------------------
/// The checksum that an archive is held to: the longer one first, an empty one counting
/// as none.
pub open spec fn checksum_of(d: Dist) -> Option<Seq<char>> {
    match d.sha256 {
        Some(s) if s@.len() > 0 => Some(s@),
        _ => match d.shasum {
            Some(s) if s@.len() > 0 => Some(s@),
            _ => None,
        },
    }
}

/// The checksum that an archive is held to.
pub fn expected_checksum(d: &Dist) -> (r: Option<&str>)
    ensures
        r.is_some() == checksum_of(*d).is_some(),
        r matches Some(s) ==> s@ == checksum_of(*d)->0,
{
    if let Some(s) = &d.sha256 {
        if !s.as_str().is_empty() {
            return Some(s.as_str());
        }
    }
    if let Some(s) = &d.shasum {
        if !s.as_str().is_empty() {
            return Some(s.as_str());
        }
    }
    None
}

/// What is known when an archive is to be had from an address.
#[derive(Debug, Clone, Copy, PartialEq, Eq, Structural)]
pub enum ArchiveState {
    /// Nothing is kept, or what was kept did not match.
    Absent,
    /// The archive is kept; `Some` tells whether it matches its checksum.
    Kept(Option<bool>),
    /// The download failed.
    Failed,
    /// The archive was downloaded; `Some` tells whether it matches its checksum.
    Downloaded(Option<bool>),
}

/// What is done about an archive.
#[derive(Debug, Clone, Copy, PartialEq, Eq, Structural)]
pub enum ArchiveStep {
    /// Unpack it; whether it was kept.
    Unpack { from_cache: bool },
    /// Remove what is kept and download it.
    Discard,
    /// Download it.
    Download,
    /// Try the next address.
    NextAddress,
    /// Remove it and fail: it does not match its checksum.
    Mismatch,
}

/// What is done about an archive.
pub open spec fn archive_step_of(state: ArchiveState) -> ArchiveStep {
    match state {
        ArchiveState::Absent => ArchiveStep::Download,
        ArchiveState::Kept(Some(false)) => ArchiveStep::Discard,
        ArchiveState::Kept(_) => ArchiveStep::Unpack { from_cache: true },
        ArchiveState::Failed => ArchiveStep::NextAddress,
        ArchiveState::Downloaded(Some(false)) => ArchiveStep::Mismatch,
        ArchiveState::Downloaded(_) => ArchiveStep::Unpack { from_cache: false },
    }
}

/// What is done about an archive.
pub fn archive_step(state: ArchiveState) -> (r: ArchiveStep)
    ensures
        r == archive_step_of(state),
{
    match state {
        ArchiveState::Absent => ArchiveStep::Download,
        ArchiveState::Kept(Some(false)) => ArchiveStep::Discard,
        ArchiveState::Kept(_) => ArchiveStep::Unpack { from_cache: true },
        ArchiveState::Failed => ArchiveStep::NextAddress,
        ArchiveState::Downloaded(Some(false)) => ArchiveStep::Mismatch,
        ArchiveState::Downloaded(_) => ArchiveStep::Unpack { from_cache: false },
    }
}

/// An archive that does not match its checksum is never unpacked.
pub proof fn law_mismatched_archives_stay_packed(state: ArchiveState)
    requires
        state == ArchiveState::Kept(Some(false)) || state == ArchiveState::Downloaded(Some(false)),
    ensures
        !(archive_step_of(state) is Unpack),
{
}

/// The addresses that are tried, in order: the first one and its mirrors.
pub open spec fn addresses_of(url: Seq<char>, mirrors: Seq<Seq<char>>) -> Seq<Seq<char>> {
    seq![url] + mirrors
}

/// What is done about a source.
#[derive(Debug, Clone, PartialEq, Eq)]
pub enum SourceStep {
    /// Clone it from an address.
    CloneFrom(String),
    /// Fail: sources of this kind are not supported.
    Unsupported { reason: String },
    /// Fail: no address is left.
    OutOfAddresses { reason: String },
}

/// What is done about a source after so many addresses have failed.
pub open spec fn is_source_step(source: Source, failed: int, step: SourceStep) -> bool {
    let addresses = addresses_of(source.url@, views(source.mirrors@));
    if source.source_type@ != "git"@ {
        step matches SourceStep::Unsupported { reason } && reason@ == "Unsupported source type: "@
            + source.source_type@
    } else if failed < addresses.len() {
        step matches SourceStep::CloneFrom(url) && url@ == addresses[failed]
    } else {
        step matches SourceStep::OutOfAddresses { reason } && reason@
            == "Git clone failed for all URLs"@
    }
}

/// What is done about a source after so many addresses have failed: the addresses are tried
/// one after the other, and the source is given up only behind the last of them.
pub fn source_step(source: &Source, failed: usize) -> (r: SourceStep)
    ensures
        is_source_step(*source, failed as int, r),
{
    if !str_equal(source.source_type.as_str(), "git") {
        return SourceStep::Unsupported {
            reason: "Unsupported source type: ".to_owned().concat(source.source_type.as_str()),
        };
    }
    assert(views(source.mirrors@).len() == source.mirrors.len());
    if failed == 0 {
        SourceStep::CloneFrom(source.url.clone())
    } else if failed <= source.mirrors.len() {
        assert(views(source.mirrors@)[failed - 1] == source.mirrors@[failed - 1]@);
        SourceStep::CloneFrom(source.mirrors[failed - 1].clone())
    } else {
        SourceStep::OutOfAddresses { reason: "Git clone failed for all URLs".to_owned() }
    }
}

/// The addresses of an archive, in the order in which they are tried.
pub fn archive_addresses(dist: &Dist) -> (r: Vec<String>)
    ensures
        views(r@) == addresses_of(dist.url@, views(dist.mirrors@)),
{
    let mut r: Vec<String> = Vec::new();
    r.push(dist.url.clone());
    let mut i: usize = 0;
    assert(views(r@) =~= addresses_of(dist.url@, views(dist.mirrors@)).take(1));
    while i < dist.mirrors.len()
        invariant
            i <= dist.mirrors.len(),
            views(r@) == addresses_of(dist.url@, views(dist.mirrors@)).take(i + 1),
        decreases dist.mirrors.len() - i,
    {
        let ghost before = r@;
        r.push(dist.mirrors[i].clone());
        i += 1;
        proof {
            let all = addresses_of(dist.url@, views(dist.mirrors@));
            assert(all.len() == dist.mirrors.len() + 1);
            assert(views(r@) =~= views(before).push(dist.mirrors@[i - 1]@));
            assert(all[i as int] == dist.mirrors@[i - 1]@);
            assert(all.take(i + 1) =~= all.take(i as int).push(all[i as int]));
        }
    }
    assert(addresses_of(dist.url@, views(dist.mirrors@)).take(i + 1) =~= addresses_of(
        dist.url@,
        views(dist.mirrors@),
    ));
    r
}

/// How a local directory is installed.
#[derive(Debug, Clone, Copy, PartialEq, Eq, Structural)]
pub enum PathStrategy {
    Symlink,
    Mirror,
}

/// The truth value of an option.
pub open spec fn option_bool(options: Option<JsonView>, key: Seq<char>) -> Option<bool> {
    match options {
        Some(v) => match v.field(key) {
            Some(JsonView::Bool(b)) => Some(b),
            _ => None,
        },
        None => None,
    }
}

/// How a local directory is installed, where its options say, and whether a link is
/// relative.
pub fn path_options(options: &Option<Json>) -> (r: (Option<PathStrategy>, bool))
    ensures
        ({
            let o = match *options {
                Some(j) => Some(j@),
                None => None,
            };
            &&& r.0 == match option_bool(o, "symlink"@) {
                Some(true) => Some(PathStrategy::Symlink),
                Some(false) => Some(PathStrategy::Mirror),
                None => None,
            }
            &&& r.1 == (option_bool(o, "relative"@) == Some(true))
        }),
{
    let strategy = match options {
        Some(o) => match o.get("symlink") {
            Some(Json::Bool(b)) => Some(
                if *b {
                    PathStrategy::Symlink
                } else {
                    PathStrategy::Mirror
                },
            ),
            _ => None,
        },
        None => None,
    };
    let relative = match options {
        Some(o) => match o.get("relative") {
            Some(Json::Bool(b)) => *b,
            _ => false,
        },
        None => false,
    };
    (strategy, relative)
}

// ---------------------------------------------------------------------------
// Git
// ---------------------------------------------------------------------------
/// How repositories are cloned.
#[derive(Debug, Clone)]
pub struct GitDownloader {
    pub ssh_key: Option<String>,
    pub use_ssh_agent: bool,
}

impl GitDownloader {
    /// With the agent, and without a key.
    pub fn new() -> (r: GitDownloader)
        ensures
            r.ssh_key is None,
            r.use_ssh_agent,
    {
        GitDownloader { ssh_key: None, use_ssh_agent: true }
    }

    /// With a key.
    pub fn with_ssh_key(self, path: &str) -> (r: GitDownloader)
        ensures
            r.ssh_key matches Some(k) && k@ == path@,
            r.use_ssh_agent == self.use_ssh_agent,
    {
        GitDownloader { ssh_key: Some(path.to_owned()), use_ssh_agent: self.use_ssh_agent }
    }

    /// Without the agent.
    pub fn without_ssh_agent(self) -> (r: GitDownloader)
        ensures
            r == (GitDownloader { use_ssh_agent: false, ..self }),
    {
        GitDownloader { use_ssh_agent: false, ..self }
    }

    /// Which credentials git is given for a clone: the key first, then the agent, then
    /// a key in the usual place; then the user and the password of the environment.
    pub open spec fn credential_of(&self, offer: GitOffer) -> GitCredential {
        if offer.ssh && self.ssh_key is Some {
            GitCredential::Key
        } else if offer.ssh && self.use_ssh_agent {
            GitCredential::Agent
        } else if offer.ssh && offer.has_ed25519 {
            GitCredential::Ed25519
        } else if offer.ssh && offer.has_rsa {
            GitCredential::Rsa
        } else if offer.password && offer.has_user_and_password {
            GitCredential::UserAndPassword
        } else if offer.default {
            GitCredential::Default
        } else {
            GitCredential::Nothing
        }
    }

    /// Which credentials git is given for a clone.
    pub fn credential(&self, offer: GitOffer) -> (r: GitCredential)
        ensures
            r == self.credential_of(offer),
    {
        if offer.ssh {
            if self.ssh_key.is_some() {
                return GitCredential::Key;
            }
            if self.use_ssh_agent {
                return GitCredential::Agent;
            }
            if offer.has_ed25519 {
                return GitCredential::Ed25519;
            }
            if offer.has_rsa {
                return GitCredential::Rsa;
            }
        }
        if offer.password && offer.has_user_and_password {
            return GitCredential::UserAndPassword;
        }
        if offer.default {
            return GitCredential::Default;
        }
        GitCredential::Nothing
    }

    /// Which credentials git is given to fetch what is new: the key first, then the agent, where
    /// the server accepts keys, and else the default.
    pub fn update_credential(&self, ssh: bool) -> (r: GitCredential)
        ensures
            r == if ssh && self.ssh_key is Some {
                GitCredential::Key
            } else if ssh && self.use_ssh_agent {
                GitCredential::Agent
            } else {
                GitCredential::Default
            },
    {
        if ssh && self.ssh_key.is_some() {
            GitCredential::Key
        } else if ssh && self.use_ssh_agent {
            GitCredential::Agent
        } else {
            GitCredential::Default
        }
    }
}

impl Default for GitDownloader {
    fn default() -> (r: GitDownloader)
        ensures
            r.ssh_key is None,
            r.use_ssh_agent,
    {
        GitDownloader::new()
    }
}

/// What a server accepts, and what is at hand.
#[derive(Debug, Clone, Copy, PartialEq, Eq, Structural)]
pub struct GitOffer {
    pub ssh: bool,
    pub password: bool,
    pub default: bool,
    pub has_ed25519: bool,
    pub has_rsa: bool,
    pub has_user_and_password: bool,
}

/// What git is given.
#[derive(Debug, Clone, Copy, PartialEq, Eq, Structural)]
pub enum GitCredential {
    Key,
    Agent,
    Ed25519,
    Rsa,
    UserAndPassword,
    Default,
    Nothing,
}

/// A digit of a hexadecimal number.
pub open spec fn hex_digit(c: char) -> bool {
    ('0' <= c && c <= '9') || ('a' <= c && c <= 'f') || ('A' <= c && c <= 'F')
}

/// A hexadecimal number of up to forty digits.
pub open spec fn is_object_id(s: Seq<char>) -> bool {
    0 < s.len() <= 40 && forall|i: int| 0 <= i < s.len() ==> hex_digit(#[trigger] s[i])
}

/// `git2::Oid::from_str`: it reads a text that is not empty, has no more than forty characters,
/// all of them hexadecimal digits, and reports an error for every other text.
#[verifier::external_body]
fn reads_as_object_id(text: &str) -> (r: bool)
    ensures
        r == is_object_id(text@),
{
    git2::Oid::from_str(text).is_ok()
}

/// Whether a reference is taken for a commit before it is looked for among tags and branches:
/// seven digits or more of an object's number.
pub fn is_commit(reference: &str) -> (r: bool)
    ensures
        r == (is_object_id(reference@) && reference@.len() >= 7),
{
    reads_as_object_id(reference) && reference.unicode_len() >= 7
}

/// The references that are tried for a checkout, one after the other: a tag, then a branch.
pub fn checkout_references(reference: &str) -> (r: (String, String))
    ensures
        r.0@ == "refs/tags/"@ + reference@,
        r.1@ == "refs/remotes/origin/"@ + reference@,
{
    (
        "refs/tags/".to_owned().concat(reference),
        "refs/remotes/origin/".to_owned().concat(reference),
    )
}

/// The branch that a file of references stands for.
pub fn branch_of(file: &str) -> (r: Option<&str>)
    ensures
        r.is_some() == crate::text::without_prefix(file@, "refs/heads/"@).is_some(),
        r matches Some(b) ==> b@ == crate::text::without_prefix(file@, "refs/heads/"@)->0,
{
    crate::text::strip_prefix(file, "refs/heads/")
}

/// The first seven characters of what stands in `HEAD`, or the file it refers to.
pub open spec fn head_of(content: Seq<char>) -> Result<Seq<char>, Seq<char>> {
    let t = crate::text::trimmed(content);
    match crate::text::without_prefix(t, "ref: "@) {
        Some(file) => Err(file),
        None => Ok(short(t)),
    }
}

/// The first seven characters.
pub open spec fn short(s: Seq<char>) -> Seq<char> {
    if s.len() < 7 {
        s
    } else {
        before(s, 7)
    }
}

/// The commit that the content of `HEAD` names, or else the file it refers to.
pub fn read_head(content: &str) -> (r: Result<String, String>)
    ensures
        match head_of(content@) {
            Ok(c) => r matches Ok(s) && s@ == c,
            Err(f) => r matches Err(s) && s@ == f,
        },
{
    let t = crate::text::trim(content);
    match crate::text::strip_prefix(t, "ref: ") {
        Some(file) => Err(file.to_owned()),
        None => Ok(short_commit(t)),
    }
}

/// The first seven characters of a commit.
pub fn short_commit(s: &str) -> (r: String)
    ensures
        r@ == short(s@),
{
    let n: usize = s.unicode_len();
    if n < 7 {
        s.to_owned()
    } else {
        s.substring_char(0, 7).to_owned()
    }
}

} // verus!
