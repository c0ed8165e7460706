//! The lock file: the packages that a project is pinned to.
use vstd::prelude::*;
use vstd::string::*;

use indexmap::IndexMap;

use crate::json::{
    entries_meaning, equal, equal_entries, meaning, Json, JsonView, Meaning,
};
use crate::links::{copy_links, links, no_links, same_links};
use crate::named_values::{copy_values, entries_of, named_values, value_count};
use crate::text::{lowercase, str_equal, to_lowercase, views};

verus! {

/// A lock file.
#[derive(Debug)]
pub struct ComposerLock {
    pub readme: Vec<String>,
    /// The hash of the manifest that the lock was made for.
    pub content_hash: String,
    pub packages: Vec<LockedPackage>,
    /// Packages for development only.
    pub packages_dev: Vec<LockedPackage>,
    pub aliases: Vec<LockAlias>,
    pub minimum_stability: String,
    /// Stabilities of single packages.
    pub stability_flags: Vec<(String, u8)>,
    pub prefer_stable: bool,
    pub prefer_lowest: bool,
    /// What is asked of the platform.
    pub platform: IndexMap<String, String>,
    pub platform_dev: IndexMap<String, String>,
    pub platform_overrides: IndexMap<String, String>,
    pub plugin_api_version: String,
}

/// A package in a lock file.
#[derive(Debug, Default)]
pub struct LockedPackage {
    pub name: String,
    pub version: String,
    pub source: Option<LockSource>,
    pub dist: Option<LockDist>,
    pub require: IndexMap<String, String>,
    pub conflict: IndexMap<String, String>,
    pub provide: IndexMap<String, String>,
    pub replace: IndexMap<String, String>,
    pub require_dev: IndexMap<String, String>,
    pub suggest: IndexMap<String, String>,
    pub bin: Vec<String>,
    pub package_type: String,
    pub extra: Option<Json>,
    pub autoload: LockAutoload,
    pub autoload_dev: LockAutoload,
    pub notification_url: Option<String>,
    pub license: Vec<String>,
    pub authors: Vec<LockAuthor>,
    pub description: Option<String>,
    pub homepage: Option<String>,
    pub keywords: Vec<String>,
    pub support: IndexMap<String, String>,
    pub funding: Vec<LockFunding>,
    pub time: Option<String>,
    /// `true`, or the name of a package to use instead.
    pub abandoned: Json,
    pub archive: Option<LockArchive>,
    pub installation_source: Option<String>,
    pub default_branch: Option<bool>,
    pub transport_options: Option<Json>,
}

/// Where the source of a package is kept.
#[derive(Debug)]
pub struct LockSource {
    pub source_type: String,
    pub url: String,
    pub reference: String,
}

/// Where the archive of a package is kept.
#[derive(Debug)]
pub struct LockDist {
    pub dist_type: String,
    pub url: String,
    pub reference: Option<String>,
    pub shasum: Option<String>,
}

/// How the classes of a locked package are found.
#[derive(Debug, Default)]
pub struct LockAutoload {
    pub psr4: IndexMap<String, Json>,
    pub psr0: IndexMap<String, Json>,
    pub classmap: Vec<String>,
    pub files: Vec<String>,
    pub exclude_from_classmap: Vec<String>,
}

/// An author of a package.
#[derive(Debug)]
pub struct LockAuthor {
    pub name: String,
    pub email: Option<String>,
    pub homepage: Option<String>,
    pub role: Option<String>,
}

/// A way to fund a package.
#[derive(Debug)]
pub struct LockFunding {
    pub url: String,
    pub funding_type: String,
}

/// How archives of a package are made.
#[derive(Debug)]
pub struct LockArchive {
    pub name: Option<String>,
    pub exclude: Vec<String>,
}

/// A version under another name.
#[derive(Debug)]
pub struct LockAlias {
    pub package: String,
    pub version: String,
    pub alias: String,
    pub alias_normalized: String,
}

// ---------------------------------------------------------------------------
// What is written
// ---------------------------------------------------------------------------
/// The text, where there is one.
pub open spec fn opt(v: Option<String>) -> Option<Seq<char>> {
    match v {
        Some(s) => Some(s@),
        None => None,
    }
}

/// The text, where there is one that is not empty.
pub open spec fn opt_nonempty(v: Option<String>) -> Option<Seq<char>> {
    match v {
        Some(s) => if s@.len() == 0 {
            None
        } else {
            Some(s@)
        },
        None => None,
    }
}

pub open spec fn opt_meaning(v: Option<Json>) -> Option<Meaning> {
    match v {
        Some(j) => Some(meaning(j@)),
        None => None,
    }
}

pub struct SourceView {
    pub source_type: Seq<char>,
    pub url: Seq<char>,
    pub reference: Seq<char>,
}

pub struct DistView {
    pub dist_type: Seq<char>,
    pub url: Seq<char>,
    pub reference: Option<Seq<char>>,
    /// Written as the empty text where there is none.
    pub shasum: Seq<char>,
}

pub struct AutoloadView {
    pub psr4: Map<Seq<char>, Meaning>,
    pub psr0: Map<Seq<char>, Meaning>,
    pub classmap: Seq<Seq<char>>,
    pub files: Seq<Seq<char>>,
    pub exclude_from_classmap: Seq<Seq<char>>,
}

pub struct AuthorView {
    pub name: Seq<char>,
    pub email: Option<Seq<char>>,
    pub homepage: Option<Seq<char>>,
    pub role: Option<Seq<char>>,
}

pub struct FundingView {
    pub url: Seq<char>,
    pub funding_type: Seq<char>,
}

pub struct ArchiveView {
    pub name: Option<Seq<char>>,
    pub exclude: Seq<Seq<char>>,
}

pub struct AliasView {
    pub package: Seq<char>,
    pub version: Seq<char>,
    pub alias: Seq<char>,
    pub alias_normalized: Seq<char>,
}

/// What the file says of a package. A field that is left out of the file is `None`
/// or empty; an object of the file does not depend on the order of its entries.
pub struct WrittenPackage {
    pub name: Seq<char>,
    pub version: Seq<char>,
    pub source: Option<SourceView>,
    pub dist: Option<DistView>,
    pub require: Set<(Seq<char>, Seq<char>)>,
    pub conflict: Set<(Seq<char>, Seq<char>)>,
    pub provide: Set<(Seq<char>, Seq<char>)>,
    pub replace: Set<(Seq<char>, Seq<char>)>,
    pub require_dev: Set<(Seq<char>, Seq<char>)>,
    pub suggest: Set<(Seq<char>, Seq<char>)>,
    pub bin: Seq<Seq<char>>,
    pub package_type: Seq<char>,
    pub extra: Option<Meaning>,
    pub autoload: Option<AutoloadView>,
    pub autoload_dev: Option<AutoloadView>,
    pub notification_url: Option<Seq<char>>,
    pub license: Seq<Seq<char>>,
    pub authors: Seq<AuthorView>,
    pub description: Option<Seq<char>>,
    pub homepage: Option<Seq<char>>,
    pub keywords: Seq<Seq<char>>,
    pub support: Set<(Seq<char>, Seq<char>)>,
    pub funding: Seq<FundingView>,
    pub time: Option<Seq<char>>,
    pub abandoned: Option<Meaning>,
    pub archive: Option<ArchiveView>,
    pub installation_source: Option<Seq<char>>,
    pub default_branch: Option<bool>,
    pub transport_options: Option<Meaning>,
}

/// What a lock file says.
pub struct WrittenLock {
    pub readme: Seq<Seq<char>>,
    pub content_hash: Seq<char>,
    pub packages: Seq<WrittenPackage>,
    pub packages_dev: Seq<WrittenPackage>,
    pub aliases: Seq<AliasView>,
    pub minimum_stability: Seq<char>,
    pub stability_flags: Set<(Seq<char>, u8)>,
    pub prefer_stable: bool,
    pub prefer_lowest: bool,
    pub platform: Set<(Seq<char>, Seq<char>)>,
    pub platform_dev: Set<(Seq<char>, Seq<char>)>,
    pub platform_overrides: Set<(Seq<char>, Seq<char>)>,
    pub plugin_api_version: Seq<char>,
}

impl View for LockSource {
    type V = SourceView;

    open spec fn view(&self) -> SourceView {
        SourceView {
            source_type: self.source_type@,
            url: self.url@,
            reference: self.reference@,
        }
    }
}

impl View for LockDist {
    type V = DistView;

    open spec fn view(&self) -> DistView {
        DistView {
            dist_type: self.dist_type@,
            url: self.url@,
            reference: opt(self.reference),
            shasum: match self.shasum {
                Some(s) => s@,
                None => Seq::empty(),
            },
        }
    }
}

impl View for LockAutoload {
    type V = AutoloadView;

    open spec fn view(&self) -> AutoloadView {
        AutoloadView {
            psr4: entries_meaning(named_values(self.psr4)),
            psr0: entries_meaning(named_values(self.psr0)),
            classmap: views(self.classmap@),
            files: views(self.files@),
            exclude_from_classmap: views(self.exclude_from_classmap@),
        }
    }
}

impl View for LockAuthor {
    type V = AuthorView;

    open spec fn view(&self) -> AuthorView {
        AuthorView {
            name: self.name@,
            email: opt(self.email),
            homepage: opt(self.homepage),
            role: opt(self.role),
        }
    }
}

impl View for LockFunding {
    type V = FundingView;

    open spec fn view(&self) -> FundingView {
        FundingView { url: self.url@, funding_type: self.funding_type@ }
    }
}

impl View for LockArchive {
    type V = ArchiveView;

    open spec fn view(&self) -> ArchiveView {
        ArchiveView { name: opt(self.name), exclude: views(self.exclude@) }
    }
}

impl View for LockAlias {
    type V = AliasView;

    open spec fn view(&self) -> AliasView {
        AliasView {
            package: self.package@,
            version: self.version@,
            alias: self.alias@,
            alias_normalized: self.alias_normalized@,
        }
    }
}

impl LockAutoload {
    /// Nothing is loaded: the list of exclusions alone does not count.
    pub open spec fn nothing(&self) -> bool {
        named_values(self.psr4).len() == 0 && named_values(self.psr0).len() == 0
            && self.classmap@.len() == 0 && self.files@.len() == 0
    }

    /// What the file says: nothing where nothing is loaded.
    pub open spec fn written(&self) -> Option<AutoloadView> {
        if self.nothing() {
            None
        } else {
            Some(self@)
        }
    }
}

pub open spec fn source_view(s: Option<LockSource>) -> Option<SourceView> {
    match s {
        Some(x) => Some(x@),
        None => None,
    }
}

pub open spec fn dist_view(s: Option<LockDist>) -> Option<DistView> {
    match s {
        Some(x) => Some(x@),
        None => None,
    }
}

pub open spec fn archive_view(s: Option<LockArchive>) -> Option<ArchiveView> {
    match s {
        Some(x) => Some(x@),
        None => None,
    }
}

/// What the file says of abandonment: nothing for `null` and `false`.
pub open spec fn abandoned_written(v: JsonView) -> Option<Meaning> {
    if v is Null || v == JsonView::Bool(false) {
        None
    } else {
        Some(meaning(v))
    }
}

impl LockedPackage {
    /// What the file says of the package.
    pub open spec fn written(&self) -> WrittenPackage {
        WrittenPackage {
            name: self.name@,
            version: self.version@,
            source: source_view(self.source),
            dist: dist_view(self.dist),
            require: links(self.require).to_set(),
            conflict: links(self.conflict).to_set(),
            provide: links(self.provide).to_set(),
            replace: links(self.replace).to_set(),
            require_dev: links(self.require_dev).to_set(),
            suggest: links(self.suggest).to_set(),
            bin: views(self.bin@),
            package_type: self.package_type@,
            extra: opt_meaning(self.extra),
            autoload: self.autoload.written(),
            autoload_dev: self.autoload_dev.written(),
            notification_url: opt(self.notification_url),
            license: views(self.license@),
            authors: self.authors@.map_values(|a: LockAuthor| a@),
            description: opt_nonempty(self.description),
            homepage: opt_nonempty(self.homepage),
            keywords: views(self.keywords@),
            support: links(self.support).to_set(),
            funding: self.funding@.map_values(|a: LockFunding| a@),
            time: opt(self.time),
            abandoned: abandoned_written(self.abandoned@),
            archive: archive_view(self.archive),
            installation_source: opt(self.installation_source),
            default_branch: self.default_branch,
            transport_options: opt_meaning(self.transport_options),
        }
    }
}

/// What the file says of a list of packages.
pub open spec fn all_written(packages: Seq<LockedPackage>) -> Seq<WrittenPackage> {
    packages.map_values(|p: LockedPackage| p.written())
}

/// What the file says of the stabilities of single packages.
pub open spec fn flags_view(flags: Seq<(String, u8)>) -> Seq<(Seq<char>, u8)> {
    flags.map_values(|f: (String, u8)| (f.0@, f.1))
}

impl ComposerLock {
    /// What the file says.
    pub open spec fn written(&self) -> WrittenLock {
        WrittenLock {
            readme: views(self.readme@),
            content_hash: self.content_hash@,
            packages: all_written(self.packages@),
            packages_dev: all_written(self.packages_dev@),
            aliases: self.aliases@.map_values(|a: LockAlias| a@),
            minimum_stability: self.minimum_stability@,
            stability_flags: flags_view(self.stability_flags@).to_set(),
            prefer_stable: self.prefer_stable,
            prefer_lowest: self.prefer_lowest,
            platform: links(self.platform).to_set(),
            platform_dev: links(self.platform_dev).to_set(),
            platform_overrides: links(self.platform_overrides).to_set(),
            plugin_api_version: self.plugin_api_version@,
        }
    }
}

// ---------------------------------------------------------------------------
// Comparing
// ---------------------------------------------------------------------------
/// Whether two optional texts are the same.
pub fn same_option(a: &Option<String>, b: &Option<String>) -> (r: bool)
    ensures
        r == (opt(*a) == opt(*b)),
{
    match (a, b) {
        (Some(x), Some(y)) => str_equal(x.as_str(), y.as_str()),
        (None, None) => true,
        _ => false,
    }
}

/// Whether two optional texts are the same, an empty text counting as none.
pub fn optional_nonempty_equivalent(left: &Option<String>, right: &Option<String>) -> (r: bool)
    ensures
        r == (opt_nonempty(*left) == opt_nonempty(*right)),
{
    let l = is_none_or_empty(left);
    let r = is_none_or_empty(right);
    if l || r {
        return l && r;
    }
    same_option(left, right)
}

/// Whether there is no text, or an empty one.
pub fn is_none_or_empty(v: &Option<String>) -> (r: bool)
    ensures
        r == (opt_nonempty(*v) is None),
{
    match v {
        None => true,
        Some(s) => s.as_str().is_empty(),
    }
}

/// Whether two lists of texts are the same.
pub fn same_strings(a: &Vec<String>, b: &Vec<String>) -> (r: bool)
    ensures
        r == (views(a@) == views(b@)),
{
    if a.len() != b.len() {
        assert(views(a@).len() != views(b@).len());
        return false;
    }
    let mut i: usize = 0;
    while i < a.len()
        invariant
            i <= a.len() == b.len(),
            forall|k: int| 0 <= k < i ==> views(a@)[k] == views(b@)[k],
        decreases a.len() - i,
    {
        if !str_equal(a[i].as_str(), b[i].as_str()) {
            assert(views(a@)[i as int] != views(b@)[i as int]);
            return false;
        }
        i += 1;
    }
    assert(views(a@) =~= views(b@));
    true
}

fn same_source(a: &Option<LockSource>, b: &Option<LockSource>) -> (r: bool)
    ensures
        r == (source_view(*a) == source_view(*b)),
{
    match (a, b) {
        (Some(x), Some(y)) => str_equal(x.source_type.as_str(), y.source_type.as_str())
            && str_equal(x.url.as_str(), y.url.as_str()) && str_equal(
            x.reference.as_str(),
            y.reference.as_str(),
        ),
        (None, None) => true,
        _ => false,
    }
}

fn shasum_text(d: &LockDist) -> (r: &str)
    ensures
        r@ == d@.shasum,
{
    match &d.shasum {
        Some(s) => s.as_str(),
        None => {
            proof {
                reveal_strlit("");
                assert(""@ =~= Seq::empty());
            }
            ""
        },
    }
}

/// Whether the file says the same of two archives. A checksum that is missing is
/// written as an empty one.
pub fn dist_equivalent_for_write(left: &Option<LockDist>, right: &Option<LockDist>) -> (r: bool)
    ensures
        r == (dist_view(*left) == dist_view(*right)),
{
    match (left, right) {
        (Some(x), Some(y)) => str_equal(x.dist_type.as_str(), y.dist_type.as_str()) && str_equal(
            x.url.as_str(),
            y.url.as_str(),
        ) && same_option(&x.reference, &y.reference) && str_equal(shasum_text(x), shasum_text(y)),
        (None, None) => true,
        _ => false,
    }
}

fn same_autoload(x: &LockAutoload, y: &LockAutoload) -> (r: bool)
    ensures
        r == (x@ == y@),
{
    equal_entries(&entries_of(&x.psr4), &entries_of(&y.psr4)) && equal_entries(
        &entries_of(&x.psr0),
        &entries_of(&y.psr0),
    ) && same_strings(
        &x.classmap,
        &y.classmap,
    ) && same_strings(&x.files, &y.files) && same_strings(
        &x.exclude_from_classmap,
        &y.exclude_from_classmap,
    )
}

impl LockAutoload {
    /// Whether nothing is loaded.
    pub fn is_empty(&self) -> (r: bool)
        ensures
            r == self.nothing(),
    {
        value_count(&self.psr4) == 0 && value_count(&self.psr0) == 0 && self.classmap.len() == 0
            && self.files.len() == 0
    }
}

/// Whether the file says the same of how classes are found.
pub fn autoload_equivalent_for_write(left: &LockAutoload, right: &LockAutoload) -> (r: bool)
    ensures
        r == (left.written() == right.written()),
{
    let l = left.is_empty();
    let r = right.is_empty();
    if l || r {
        return l && r;
    }
    same_autoload(left, right)
}

fn is_null_or_false(v: &Json) -> (r: bool)
    ensures
        r == (abandoned_written(v@) is None),
{
    match v {
        Json::Null => true,
        Json::Bool(b) => !*b,
        _ => false,
    }
}

/// Whether the file says the same of abandonment.
pub fn abandoned_equivalent_for_write(left: &Json, right: &Json) -> (r: bool)
    ensures
        r == (abandoned_written(left@) == abandoned_written(right@)),
{
    let l = is_null_or_false(left);
    let r = is_null_or_false(right);
    if l || r {
        return l && r;
    }
    equal(left, right)
}

fn same_value(a: &Option<Json>, b: &Option<Json>) -> (r: bool)
    ensures
        r == (opt_meaning(*a) == opt_meaning(*b)),
{
    match (a, b) {
        (Some(x), Some(y)) => equal(x, y),
        (None, None) => true,
        _ => false,
    }
}

fn same_authors(a: &Vec<LockAuthor>, b: &Vec<LockAuthor>) -> (r: bool)
    ensures
        r == (a@.map_values(|x: LockAuthor| x@) == b@.map_values(|x: LockAuthor| x@)),
{
    let ghost f = |x: LockAuthor| x@;
    let ghost p = a@.map_values(f);
    let ghost q = b@.map_values(f);
    if a.len() != b.len() {
        assert(p.len() != q.len());
        return false;
    }
    let mut i: usize = 0;
    while i < a.len()
        invariant
            i <= a.len() == b.len(),
            f == (|x: LockAuthor| x@),
            p == a@.map_values(f),
            q == b@.map_values(f),
            forall|k: int| 0 <= k < i ==> p[k] == q[k],
        decreases a.len() - i,
    {
        let x = &a[i];
        let y = &b[i];
        if !(str_equal(x.name.as_str(), y.name.as_str()) && same_option(&x.email, &y.email)
            && same_option(&x.homepage, &y.homepage) && same_option(&x.role, &y.role)) {
            assert(p[i as int] != q[i as int]);
            return false;
        }
        assert(p[i as int] == q[i as int]);
        i += 1;
    }
    assert(p =~= q);
    true
}

fn same_funding(a: &Vec<LockFunding>, b: &Vec<LockFunding>) -> (r: bool)
    ensures
        r == (a@.map_values(|x: LockFunding| x@) == b@.map_values(|x: LockFunding| x@)),
{
    let ghost f = |x: LockFunding| x@;
    let ghost p = a@.map_values(f);
    let ghost q = b@.map_values(f);
    if a.len() != b.len() {
        assert(p.len() != q.len());
        return false;
    }
    let mut i: usize = 0;
    while i < a.len()
        invariant
            i <= a.len() == b.len(),
            f == (|x: LockFunding| x@),
            p == a@.map_values(f),
            q == b@.map_values(f),
            forall|k: int| 0 <= k < i ==> p[k] == q[k],
        decreases a.len() - i,
    {
        let x = &a[i];
        let y = &b[i];
        if !(str_equal(x.url.as_str(), y.url.as_str()) && str_equal(
            x.funding_type.as_str(),
            y.funding_type.as_str(),
        )) {
            assert(p[i as int] != q[i as int]);
            return false;
        }
        assert(p[i as int] == q[i as int]);
        i += 1;
    }
    assert(p =~= q);
    true
}

fn same_aliases(a: &Vec<LockAlias>, b: &Vec<LockAlias>) -> (r: bool)
    ensures
        r == (a@.map_values(|x: LockAlias| x@) == b@.map_values(|x: LockAlias| x@)),
{
    let ghost f = |x: LockAlias| x@;
    let ghost p = a@.map_values(f);
    let ghost q = b@.map_values(f);
    if a.len() != b.len() {
        assert(p.len() != q.len());
        return false;
    }
    let mut i: usize = 0;
    while i < a.len()
        invariant
            i <= a.len() == b.len(),
            f == (|x: LockAlias| x@),
            p == a@.map_values(f),
            q == b@.map_values(f),
            forall|k: int| 0 <= k < i ==> p[k] == q[k],
        decreases a.len() - i,
    {
        let x = &a[i];
        let y = &b[i];
        if !(str_equal(x.package.as_str(), y.package.as_str()) && str_equal(
            x.version.as_str(),
            y.version.as_str(),
        ) && str_equal(x.alias.as_str(), y.alias.as_str()) && str_equal(
            x.alias_normalized.as_str(),
            y.alias_normalized.as_str(),
        )) {
            assert(p[i as int] != q[i as int]);
            return false;
        }
        assert(p[i as int] == q[i as int]);
        i += 1;
    }
    assert(p =~= q);
    true
}

fn same_archive(a: &Option<LockArchive>, b: &Option<LockArchive>) -> (r: bool)
    ensures
        r == (archive_view(*a) == archive_view(*b)),
{
    match (a, b) {
        (Some(x), Some(y)) => same_option(&x.name, &y.name) && same_strings(
            &x.exclude,
            &y.exclude,
        ),
        (None, None) => true,
        _ => false,
    }
}

fn flags_within(a: &Vec<(String, u8)>, b: &Vec<(String, u8)>) -> (r: bool)
    ensures
        r == flags_view(a@).to_set().subset_of(flags_view(b@).to_set()),
{
    let ghost p = flags_view(a@);
    let ghost q = flags_view(b@);
    let mut i: usize = 0;
    while i < a.len()
        invariant
            i <= a.len(),
            p == flags_view(a@),
            q == flags_view(b@),
            forall|k: int| 0 <= k < i ==> q.contains(#[trigger] p[k]),
        decreases a.len() - i,
    {
        let mut j: usize = 0;
        let mut found = false;
        while j < b.len()
            invariant
                i < a.len(),
                j <= b.len(),
                p == flags_view(a@),
                q == flags_view(b@),
                found == exists|k: int| 0 <= k < j && q[k] == p[i as int],
            decreases b.len() - j,
        {
            if str_equal(a[i].0.as_str(), b[j].0.as_str()) && a[i].1 == b[j].1 {
                assert(q[j as int] == p[i as int]);
                found = true;
            } else {
                assert(q[j as int] != p[i as int]);
            }
            j += 1;
        }
        if !found {
            assert(!q.contains(p[i as int]));
            assert(p.to_set().contains(p[i as int]));
            assert(!q.to_set().contains(p[i as int]));
            return false;
        }
        i += 1;
    }
    assert forall|x: (Seq<char>, u8)| p.to_set().contains(x) implies q.to_set().contains(x) by {
        let k = choose|k: int| 0 <= k < p.len() && p[k] == x;
        assert(q.contains(p[k]));
    }
    true
}

fn same_flags(a: &Vec<(String, u8)>, b: &Vec<(String, u8)>) -> (r: bool)
    ensures
        r == (flags_view(a@).to_set() == flags_view(b@).to_set()),
{
    let ghost p = flags_view(a@).to_set();
    let ghost q = flags_view(b@).to_set();
    let r = flags_within(a, b) && flags_within(b, a);
    if r {
        assert(p =~= q);
    }
    r
}

impl LockedPackage {
    /// Whether the file says the same of two packages.
    pub fn equivalent_for_write(&self, other: &Self) -> (r: bool)
        ensures
            r == (self.written() == other.written()),
    {
        str_equal(self.name.as_str(), other.name.as_str()) && str_equal(
            self.version.as_str(),
            other.version.as_str(),
        ) && same_source(&self.source, &other.source) && dist_equivalent_for_write(
            &self.dist,
            &other.dist,
        ) && same_links(&self.require, &other.require) && same_links(
            &self.conflict,
            &other.conflict,
        ) && same_links(&self.provide, &other.provide) && same_links(
            &self.replace,
            &other.replace,
        ) && same_links(&self.require_dev, &other.require_dev) && same_links(
            &self.suggest,
            &other.suggest,
        ) && same_strings(&self.bin, &other.bin) && str_equal(
            self.package_type.as_str(),
            other.package_type.as_str(),
        ) && same_value(&self.extra, &other.extra) && autoload_equivalent_for_write(
            &self.autoload,
            &other.autoload,
        ) && autoload_equivalent_for_write(&self.autoload_dev, &other.autoload_dev) && same_option(
            &self.notification_url,
            &other.notification_url,
        ) && same_strings(&self.license, &other.license) && same_authors(
            &self.authors,
            &other.authors,
        ) && optional_nonempty_equivalent(&self.description, &other.description)
            && optional_nonempty_equivalent(&self.homepage, &other.homepage) && same_strings(
            &self.keywords,
            &other.keywords,
        ) && same_links(&self.support, &other.support) && same_funding(
            &self.funding,
            &other.funding,
        ) && same_option(&self.time, &other.time) && abandoned_equivalent_for_write(
            &self.abandoned,
            &other.abandoned,
        ) && same_archive(&self.archive, &other.archive) && same_option(
            &self.installation_source,
            &other.installation_source,
        ) && self.default_branch == other.default_branch && same_value(
            &self.transport_options,
            &other.transport_options,
        )
    }
}

fn equivalent_packages(a: &Vec<LockedPackage>, b: &Vec<LockedPackage>) -> (r: bool)
    ensures
        r == (all_written(a@) == all_written(b@)),
{
    let ghost p = all_written(a@);
    let ghost q = all_written(b@);
    if a.len() != b.len() {
        assert(p.len() != q.len());
        return false;
    }
    let mut i: usize = 0;
    while i < a.len()
        invariant
            i <= a.len() == b.len(),
            p == all_written(a@),
            q == all_written(b@),
            forall|k: int| 0 <= k < i ==> p[k] == q[k],
        decreases a.len() - i,
    {
        assert(p[i as int] == a@[i as int].written());
        assert(q[i as int] == b@[i as int].written());
        if !a[i].equivalent_for_write(&b[i]) {
            return false;
        }
        i += 1;
    }
    assert(p =~= q);
    true
}

impl ComposerLock {
    /// Whether two lock files say the same: writing either gives the same JSON value.
    pub fn equivalent_for_write(&self, other: &Self) -> (r: bool)
        ensures
            r == (self.written() == other.written()),
    {
        same_strings(&self.readme, &other.readme) && str_equal(
            self.content_hash.as_str(),
            other.content_hash.as_str(),
        ) && equivalent_packages(&self.packages, &other.packages) && equivalent_packages(
            &self.packages_dev,
            &other.packages_dev,
        ) && same_aliases(&self.aliases, &other.aliases) && str_equal(
            self.minimum_stability.as_str(),
            other.minimum_stability.as_str(),
        ) && same_flags(&self.stability_flags, &other.stability_flags) && self.prefer_stable
            == other.prefer_stable && self.prefer_lowest == other.prefer_lowest && same_links(
            &self.platform,
            &other.platform,
        ) && same_links(&self.platform_dev, &other.platform_dev) && same_links(
            &self.platform_overrides,
            &other.platform_overrides,
        ) && str_equal(self.plugin_api_version.as_str(), other.plugin_api_version.as_str())
    }
}


// ---------------------------------------------------------------------------
// Copies
// ---------------------------------------------------------------------------
/// A copy of an optional text.
pub fn copy_option(v: &Option<String>) -> (r: Option<String>)
    ensures
        opt(r) == opt(*v),
{
    match v {
        Some(s) => Some(s.clone()),
        None => None,
    }
}

/// A copy of a list of texts.
pub fn copy_strings(v: &Vec<String>) -> (r: Vec<String>)
    ensures
        views(r@) == views(v@),
{
    let mut out: Vec<String> = Vec::new();
    let mut i: usize = 0;
    while i < v.len()
        invariant
            i <= v.len(),
            views(out@) == views(v@).take(i as int),
        decreases v.len() - i,
    {
        let one = v[i].clone();
        proof {
            crate::text::lemma_views_push(out@, one);
        }
        out.push(one);
        i += 1;
        assert(views(out@) =~= views(v@).take(i as int));
    }
    assert(views(out@) =~= views(v@));
    out
}

pub fn copy_value(v: &Option<Json>) -> (r: Option<Json>)
    ensures
        opt_value(r) == opt_value(*v),
{
    match v {
        Some(j) => Some(crate::json::copy(j)),
        None => None,
    }
}

/// The value, where there is one.
pub open spec fn opt_value(v: Option<Json>) -> Option<JsonView> {
    match v {
        Some(j) => Some(j@),
        None => None,
    }
}

/// The same archive.
pub open spec fn same_dist(a: Option<LockDist>, b: Option<LockDist>) -> bool {
    match (a, b) {
        (Some(x), Some(y)) => x@ == y@ && opt(x.shasum) == opt(y.shasum),
        (None, None) => true,
        _ => false,
    }
}

/// Classes are found in the same way, in the same order.
pub open spec fn same_way(a: LockAutoload, b: LockAutoload) -> bool {
    &&& named_values(a.psr4) == named_values(b.psr4)
    &&& named_values(a.psr0) == named_values(b.psr0)
    &&& views(a.classmap@) == views(b.classmap@)
    &&& views(a.files@) == views(b.files@)
    &&& views(a.exclude_from_classmap@) == views(b.exclude_from_classmap@)
}

/// Two packages hold the same in every field, lists and maps in the same order.
pub open spec fn same_locked(a: LockedPackage, b: LockedPackage) -> bool {
    &&& a.name@ == b.name@
    &&& a.version@ == b.version@
    &&& source_view(a.source) == source_view(b.source)
    &&& same_dist(a.dist, b.dist)
    &&& links(a.require) == links(b.require)
    &&& links(a.conflict) == links(b.conflict)
    &&& links(a.provide) == links(b.provide)
    &&& links(a.replace) == links(b.replace)
    &&& links(a.require_dev) == links(b.require_dev)
    &&& links(a.suggest) == links(b.suggest)
    &&& views(a.bin@) == views(b.bin@)
    &&& a.package_type@ == b.package_type@
    &&& opt_value(a.extra) == opt_value(b.extra)
    &&& same_way(a.autoload, b.autoload)
    &&& same_way(a.autoload_dev, b.autoload_dev)
    &&& opt(a.notification_url) == opt(b.notification_url)
    &&& views(a.license@) == views(b.license@)
    &&& a.authors@.map_values(|x: LockAuthor| x@) == b.authors@.map_values(|x: LockAuthor| x@)
    &&& opt(a.description) == opt(b.description)
    &&& opt(a.homepage) == opt(b.homepage)
    &&& views(a.keywords@) == views(b.keywords@)
    &&& links(a.support) == links(b.support)
    &&& a.funding@.map_values(|x: LockFunding| x@) == b.funding@.map_values(|x: LockFunding| x@)
    &&& opt(a.time) == opt(b.time)
    &&& a.abandoned@ == b.abandoned@
    &&& archive_view(a.archive) == archive_view(b.archive)
    &&& opt(a.installation_source) == opt(b.installation_source)
    &&& a.default_branch == b.default_branch
    &&& opt_value(a.transport_options) == opt_value(b.transport_options)
}

/// Lists of packages that hold the same, one by one.
pub open spec fn all_same_locked(a: Seq<LockedPackage>, b: Seq<LockedPackage>) -> bool {
    a.len() == b.len() && forall|i: int|
        0 <= i < a.len() ==> same_locked(#[trigger] a[i], b[i])
}

/// Two lock files hold the same in every field, lists and maps in the same order.
pub open spec fn same_lock(a: ComposerLock, b: ComposerLock) -> bool {
    &&& views(a.readme@) == views(b.readme@)
    &&& a.content_hash@ == b.content_hash@
    &&& all_same_locked(a.packages@, b.packages@)
    &&& all_same_locked(a.packages_dev@, b.packages_dev@)
    &&& a.aliases@.map_values(|x: LockAlias| x@) == b.aliases@.map_values(|x: LockAlias| x@)
    &&& a.minimum_stability@ == b.minimum_stability@
    &&& flags_view(a.stability_flags@) == flags_view(b.stability_flags@)
    &&& a.prefer_stable == b.prefer_stable
    &&& a.prefer_lowest == b.prefer_lowest
    &&& links(a.platform) == links(b.platform)
    &&& links(a.platform_dev) == links(b.platform_dev)
    &&& links(a.platform_overrides) == links(b.platform_overrides)
    &&& a.plugin_api_version@ == b.plugin_api_version@
}

/// The file says the same of packages that hold the same.
pub proof fn law_same_packages_are_written_alike(a: LockedPackage, b: LockedPackage)
    requires
        same_locked(a, b),
    ensures
        a.written() == b.written(),
{
    lemma_same_way(a.autoload, b.autoload);
    lemma_same_way(a.autoload_dev, b.autoload_dev);
}

proof fn lemma_same_way(a: LockAutoload, b: LockAutoload)
    requires
        same_way(a, b),
    ensures
        a.written() == b.written(),
{
    assert(views(a.classmap@).len() == a.classmap@.len());
    assert(views(b.classmap@).len() == b.classmap@.len());
    assert(views(a.files@).len() == a.files@.len());
    assert(views(b.files@).len() == b.files@.len());
}

impl Clone for LockSource {
    fn clone(&self) -> (r: LockSource)
        ensures
            r@ == self@,
    {
        LockSource {
            source_type: self.source_type.clone(),
            url: self.url.clone(),
            reference: self.reference.clone(),
        }
    }
}

impl Clone for LockDist {
    fn clone(&self) -> (r: LockDist)
        ensures
            r@ == self@,
            opt(r.shasum) == opt(self.shasum),
    {
        LockDist {
            dist_type: self.dist_type.clone(),
            url: self.url.clone(),
            reference: copy_option(&self.reference),
            shasum: copy_option(&self.shasum),
        }
    }
}

impl Clone for LockAutoload {
    fn clone(&self) -> (r: LockAutoload)
        ensures
            same_way(r, *self),
    {
        LockAutoload {
            psr4: copy_values(&self.psr4),
            psr0: copy_values(&self.psr0),
            classmap: copy_strings(&self.classmap),
            files: copy_strings(&self.files),
            exclude_from_classmap: copy_strings(&self.exclude_from_classmap),
        }
    }
}

impl Clone for LockAuthor {
    fn clone(&self) -> (r: LockAuthor)
        ensures
            r@ == self@,
    {
        LockAuthor {
            name: self.name.clone(),
            email: copy_option(&self.email),
            homepage: copy_option(&self.homepage),
            role: copy_option(&self.role),
        }
    }
}

impl Clone for LockFunding {
    fn clone(&self) -> (r: LockFunding)
        ensures
            r@ == self@,
    {
        LockFunding { url: self.url.clone(), funding_type: self.funding_type.clone() }
    }
}

impl Clone for LockArchive {
    fn clone(&self) -> (r: LockArchive)
        ensures
            r@ == self@,
    {
        LockArchive { name: copy_option(&self.name), exclude: copy_strings(&self.exclude) }
    }
}

impl Clone for LockAlias {
    fn clone(&self) -> (r: LockAlias)
        ensures
            r@ == self@,
    {
        LockAlias {
            package: self.package.clone(),
            version: self.version.clone(),
            alias: self.alias.clone(),
            alias_normalized: self.alias_normalized.clone(),
        }
    }
}

fn copy_authors(v: &Vec<LockAuthor>) -> (r: Vec<LockAuthor>)
    ensures
        r@.map_values(|x: LockAuthor| x@) == v@.map_values(|x: LockAuthor| x@),
{
    let mut out: Vec<LockAuthor> = Vec::new();
    let mut i: usize = 0;
    while i < v.len()
        invariant
            i <= v.len(),
            out.len() == i,
            forall|k: int| 0 <= k < i ==> (#[trigger] out@[k])@ == v@[k]@,
        decreases v.len() - i,
    {
        out.push(v[i].clone());
        i += 1;
    }
    assert(out@.map_values(|x: LockAuthor| x@) =~= v@.map_values(|x: LockAuthor| x@));
    out
}

fn copy_funding(v: &Vec<LockFunding>) -> (r: Vec<LockFunding>)
    ensures
        r@.map_values(|x: LockFunding| x@) == v@.map_values(|x: LockFunding| x@),
{
    let mut out: Vec<LockFunding> = Vec::new();
    let mut i: usize = 0;
    while i < v.len()
        invariant
            i <= v.len(),
            out.len() == i,
            forall|k: int| 0 <= k < i ==> (#[trigger] out@[k])@ == v@[k]@,
        decreases v.len() - i,
    {
        out.push(v[i].clone());
        i += 1;
    }
    assert(out@.map_values(|x: LockFunding| x@) =~= v@.map_values(|x: LockFunding| x@));
    out
}

fn copy_aliases(v: &Vec<LockAlias>) -> (r: Vec<LockAlias>)
    ensures
        r@.map_values(|x: LockAlias| x@) == v@.map_values(|x: LockAlias| x@),
{
    let mut out: Vec<LockAlias> = Vec::new();
    let mut i: usize = 0;
    while i < v.len()
        invariant
            i <= v.len(),
            out.len() == i,
            forall|k: int| 0 <= k < i ==> (#[trigger] out@[k])@ == v@[k]@,
        decreases v.len() - i,
    {
        out.push(v[i].clone());
        i += 1;
    }
    assert(out@.map_values(|x: LockAlias| x@) =~= v@.map_values(|x: LockAlias| x@));
    out
}

impl Clone for LockedPackage {
    fn clone(&self) -> (r: LockedPackage)
        ensures
            same_locked(r, *self),
    {
        LockedPackage {
            name: self.name.clone(),
            version: self.version.clone(),
            source: match &self.source {
                Some(s) => Some(s.clone()),
                None => None,
            },
            dist: match &self.dist {
                Some(d) => Some(d.clone()),
                None => None,
            },
            require: copy_links(&self.require),
            conflict: copy_links(&self.conflict),
            provide: copy_links(&self.provide),
            replace: copy_links(&self.replace),
            require_dev: copy_links(&self.require_dev),
            suggest: copy_links(&self.suggest),
            bin: copy_strings(&self.bin),
            package_type: self.package_type.clone(),
            extra: copy_value(&self.extra),
            autoload: self.autoload.clone(),
            autoload_dev: self.autoload_dev.clone(),
            notification_url: copy_option(&self.notification_url),
            license: copy_strings(&self.license),
            authors: copy_authors(&self.authors),
            description: copy_option(&self.description),
            homepage: copy_option(&self.homepage),
            keywords: copy_strings(&self.keywords),
            support: copy_links(&self.support),
            funding: copy_funding(&self.funding),
            time: copy_option(&self.time),
            abandoned: crate::json::copy(&self.abandoned),
            archive: match &self.archive {
                Some(a) => Some(a.clone()),
                None => None,
            },
            installation_source: copy_option(&self.installation_source),
            default_branch: self.default_branch,
            transport_options: copy_value(&self.transport_options),
        }
    }
}

fn copy_packages(v: &Vec<LockedPackage>) -> (r: Vec<LockedPackage>)
    ensures
        all_same_locked(r@, v@),
{
    let mut out: Vec<LockedPackage> = Vec::new();
    let mut i: usize = 0;
    while i < v.len()
        invariant
            i <= v.len(),
            out.len() == i,
            forall|k: int| 0 <= k < i ==> same_locked(#[trigger] out@[k], v@[k]),
        decreases v.len() - i,
    {
        out.push(v[i].clone());
        i += 1;
    }
    out
}

fn copy_flags(v: &Vec<(String, u8)>) -> (r: Vec<(String, u8)>)
    ensures
        flags_view(r@) == flags_view(v@),
{
    let mut out: Vec<(String, u8)> = Vec::new();
    let mut i: usize = 0;
    while i < v.len()
        invariant
            i <= v.len(),
            out.len() == i,
            forall|k: int|
                0 <= k < i ==> (#[trigger] out@[k]).0@ == v@[k].0@ && out@[k].1 == v@[k].1,
        decreases v.len() - i,
    {
        out.push((v[i].0.clone(), v[i].1));
        i += 1;
    }
    assert(flags_view(out@) =~= flags_view(v@));
    out
}

impl Clone for ComposerLock {
    fn clone(&self) -> (r: ComposerLock)
        ensures
            same_lock(r, *self),
    {
        ComposerLock {
            readme: copy_strings(&self.readme),
            content_hash: self.content_hash.clone(),
            packages: copy_packages(&self.packages),
            packages_dev: copy_packages(&self.packages_dev),
            aliases: copy_aliases(&self.aliases),
            minimum_stability: self.minimum_stability.clone(),
            stability_flags: copy_flags(&self.stability_flags),
            prefer_stable: self.prefer_stable,
            prefer_lowest: self.prefer_lowest,
            platform: copy_links(&self.platform),
            platform_dev: copy_links(&self.platform_dev),
            platform_overrides: copy_links(&self.platform_overrides),
            plugin_api_version: self.plugin_api_version.clone(),
        }
    }
}

// ---------------------------------------------------------------------------
// Defaults and lookups
// ---------------------------------------------------------------------------
/// The note at the top of a lock file.
pub open spec fn readme_lines() -> Seq<Seq<char>> {
    seq![
        "This file locks the dependencies of your project to a known state"@,
        "Read more about it at https://getcomposer.org/doc/01-basic-usage.md#installing-dependencies"@,
        "This file is @generated automatically"@,
    ]
}

/// The note at the top of a lock file.
pub fn default_readme() -> (r: Vec<String>)
    ensures
        views(r@) == readme_lines(),
{
    let mut out: Vec<String> = Vec::new();
    out.push("This file locks the dependencies of your project to a known state".to_owned());
    out.push(
        "Read more about it at https://getcomposer.org/doc/01-basic-usage.md#installing-dependencies".to_owned(),
    );
    out.push("This file is @generated automatically".to_owned());
    assert(views(out@) =~= readme_lines());
    out
}

/// The type of a package that names none.
pub fn default_type() -> (r: String)
    ensures
        r@ == "library"@,
{
    "library".to_owned()
}

impl Default for ComposerLock {
    fn default() -> (r: ComposerLock)
        ensures
            views(r.readme@) == readme_lines(),
            r.content_hash@.len() == 0,
            r.packages@.len() == 0,
            r.packages_dev@.len() == 0,
            r.aliases@.len() == 0,
            r.minimum_stability@.len() == 0,
            r.stability_flags@.len() == 0,
            !r.prefer_stable,
            !r.prefer_lowest,
            links(r.platform).len() == 0,
            links(r.platform_dev).len() == 0,
            links(r.platform_overrides).len() == 0,
            r.plugin_api_version@.len() == 0,
    {
        ComposerLock {
            readme: default_readme(),
            content_hash: String::new(),
            packages: Vec::new(),
            packages_dev: Vec::new(),
            aliases: Vec::new(),
            minimum_stability: String::new(),
            stability_flags: Vec::new(),
            prefer_stable: false,
            prefer_lowest: false,
            platform: no_links(),
            platform_dev: no_links(),
            platform_overrides: no_links(),
            plugin_api_version: String::new(),
        }
    }
}

/// What the references of a list stand for.
pub open spec fn behind(v: Seq<&LockedPackage>) -> Seq<LockedPackage> {
    v.map_values(|p: &LockedPackage| *p)
}

/// The position of the first package with the name, whatever the case of its letters.
pub open spec fn position(packages: Seq<LockedPackage>, name: Seq<char>) -> int
    decreases packages.len(),
{
    if packages.len() == 0 || lowercase(packages[0].name@) == lowercase(name) {
        0
    } else {
        1 + position(packages.drop_first(), name)
    }
}

fn find_in(packages: &Vec<LockedPackage>, name: &str) -> (r: usize)
    ensures
        r == position(packages@, name@),
        r <= packages.len(),
{
    let wanted = to_lowercase(name);
    let mut i: usize = 0;
    assert(packages@.skip(0) =~= packages@);
    while i < packages.len()
        invariant
            i <= packages.len(),
            wanted@ == lowercase(name@),
            position(packages@, name@) == i + position(packages@.skip(i as int), name@),
        decreases packages.len() - i,
    {
        assert(packages@.skip(i as int).drop_first() =~= packages@.skip(i + 1));
        let have = to_lowercase(packages[i].name.as_str());
        if str_equal(have.as_str(), wanted.as_str()) {
            return i;
        }
        i += 1;
    }
    i
}

impl ComposerLock {
    /// Every package: those for production first.
    pub open spec fn all(&self) -> Seq<LockedPackage> {
        self.packages@ + self.packages_dev@
    }

    /// The packages, those for development last.
    pub fn all_packages(&self) -> (r: Vec<&LockedPackage>)
        ensures
            behind(r@) == self.all(),
    {
        let mut out: Vec<&LockedPackage> = Vec::new();
        let mut i: usize = 0;
        assert(behind(out@) =~= self.packages@.take(0));
        while i < self.packages.len()
            invariant
                i <= self.packages.len(),
                behind(out@) == self.packages@.take(i as int),
            decreases self.packages.len() - i,
        {
            let ghost before = behind(out@);
            out.push(&self.packages[i]);
            assert(behind(out@) =~= before.push(self.packages@[i as int]));
            i += 1;
            assert(behind(out@) =~= self.packages@.take(i as int));
        }
        let mut j: usize = 0;
        assert(behind(out@) =~= self.packages@ + self.packages_dev@.take(0));
        while j < self.packages_dev.len()
            invariant
                j <= self.packages_dev.len(),
                behind(out@) == self.packages@ + self.packages_dev@.take(j as int),
            decreases self.packages_dev.len() - j,
        {
            let ghost before = behind(out@);
            out.push(&self.packages_dev[j]);
            assert(behind(out@) =~= before.push(self.packages_dev@[j as int]));
            j += 1;
            assert(behind(out@) =~= self.packages@ + self.packages_dev@.take(j as int));
        }
        assert(self.packages_dev@.take(j as int) =~= self.packages_dev@);
        out
    }

    /// The first package with the name, whatever the case of its letters.
    pub fn find_package(&self, name: &str) -> (r: Option<&LockedPackage>)
        ensures
            r.is_some() == (position(self.all(), name@) < self.all().len()),
            r matches Some(p) ==> *p == self.all()[position(self.all(), name@)],
    {
        proof {
            lemma_position_split(self.packages@, self.packages_dev@, name@);
        }
        let at: usize = find_in(&self.packages, name);
        if at < self.packages.len() {
            return Some(&self.packages[at]);
        }
        let at: usize = find_in(&self.packages_dev, name);
        if at < self.packages_dev.len() {
            Some(&self.packages_dev[at])
        } else {
            None
        }
    }

    /// Whether the name is that of a package for development.
    pub fn is_dev_package(&self, name: &str) -> (r: bool)
        ensures
            r == exists|i: int|
                0 <= i < self.packages_dev.len() && lowercase(
                    (#[trigger] self.packages_dev@[i]).name@,
                ) == lowercase(name@),
    {
        let at: usize = find_in(&self.packages_dev, name);
        proof {
            lemma_position(self.packages_dev@, name@);
        }
        at < self.packages_dev.len()
    }

    /// How many packages are locked.
    pub fn package_count(&self) -> (r: usize)
        requires
            self.packages.len() + self.packages_dev.len() <= usize::MAX,
        ensures
            r == self.all().len(),
    {
        self.packages.len() + self.packages_dev.len()
    }
}

proof fn lemma_position(packages: Seq<LockedPackage>, name: Seq<char>)
    ensures
        0 <= position(packages, name) <= packages.len(),
        position(packages, name) < packages.len() ==> lowercase(
            packages[position(packages, name)].name@,
        ) == lowercase(name),
        forall|i: int|
            0 <= i < position(packages, name) ==> lowercase((#[trigger] packages[i]).name@)
                != lowercase(name),
    decreases packages.len(),
{
    if packages.len() > 0 && lowercase(packages[0].name@) != lowercase(name) {
        let rest = packages.drop_first();
        lemma_position(rest, name);
        assert forall|i: int| 0 <= i < position(packages, name) implies lowercase(
            (#[trigger] packages[i]).name@,
        ) != lowercase(name) by {
            if i > 0 {
                assert(packages[i] == rest[i - 1]);
            }
        }
        if position(rest, name) < rest.len() {
            assert(rest[position(rest, name)] == packages[position(packages, name)]);
        }
    }
}

proof fn lemma_position_split(a: Seq<LockedPackage>, b: Seq<LockedPackage>, name: Seq<char>)
    ensures
        position(a + b, name) == if position(a, name) < a.len() {
            position(a, name)
        } else {
            a.len() + position(b, name)
        },
    decreases a.len(),
{
    if a.len() == 0 {
        assert(a + b =~= b);
    } else {
        assert((a + b).drop_first() =~= a.drop_first() + b);
        assert((a + b)[0] == a[0]);
        lemma_position_split(a.drop_first(), b, name);
        lemma_position(a, name);
    }
}

impl LockedPackage {
    /// The address to download from: the archive where there is one, else the source.
    pub fn download_url(&self) -> (r: Option<&str>)
        ensures
            r.is_some() == (self.dist.is_some() || self.source.is_some()),
            r matches Some(u) ==> u@ == match self.dist {
                Some(d) => d.url@,
                None => self.source->0.url@,
            },
    {
        match &self.dist {
            Some(d) => Some(d.url.as_str()),
            None => match &self.source {
                Some(s) => Some(s.url.as_str()),
                None => None,
            },
        }
    }

    /// The reference of the archive where it has one, else that of the source.
    pub open spec fn reference_of(&self) -> Option<Seq<char>> {
        match dist_view(self.dist) {
            Some(d) => match d.reference {
                Some(t) => Some(t),
                None => match self.source {
                    Some(s) => Some(s.reference@),
                    None => None,
                },
            },
            None => match self.source {
                Some(s) => Some(s.reference@),
                None => None,
            },
        }
    }

    /// The reference: a commit, a tag or the like.
    pub fn reference(&self) -> (r: Option<&str>)
        ensures
            r.is_some() == self.reference_of().is_some(),
            r matches Some(t) ==> t@ == self.reference_of()->0,
    {
        if let Some(d) = &self.dist {
            if let Some(t) = &d.reference {
                return Some(t.as_str());
            }
        }
        match &self.source {
            Some(s) => Some(s.reference.as_str()),
            None => None,
        }
    }

    /// Whether the package is abandoned.
    pub fn is_abandoned(&self) -> (r: bool)
        ensures
            r == (self.abandoned@ == JsonView::Bool(true) || self.abandoned@ is Text),
    {
        match &self.abandoned {
            Json::Bool(b) => *b,
            Json::Text(_) => true,
            _ => false,
        }
    }

    /// The package to use instead, where one is named.
    pub fn abandoned_replacement(&self) -> (r: Option<&str>)
        ensures
            r.is_some() == (self.abandoned@ matches JsonView::Text(t) && t.len() > 0),
            r matches Some(t) ==> self.abandoned@ == JsonView::Text(t@),
    {
        match &self.abandoned {
            Json::Text(t) => if t.as_str().is_empty() {
                None
            } else {
                Some(t.as_str())
            },
            _ => None,
        }
    }
}

} // verus!
