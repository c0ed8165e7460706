//! The manifest of a project: `composer.json`.
use vstd::prelude::*;
use vstd::string::*;

use indexmap::IndexMap;

use crate::autoload::types::Autoload;
use crate::json::{entries_view, lemma_object_view, Entries, Json, JsonView};
use crate::links::{copy_links, link_count, link_entry, links, set_link, with_link, Pairs};
use crate::lock::copy_strings;
use crate::package::Abandoned;
use crate::sort::{lemma_pairs_push, pairs};
use crate::text::{sides, split_text, str_equal, views};

verus! {

/// A manifest.
#[derive(Debug, Default)]
pub struct ComposerJson {
    pub name: Option<String>,
    pub description: Option<String>,
    pub version: Option<String>,
    pub package_type: String,
    pub keywords: Vec<String>,
    pub homepage: Option<String>,
    pub readme: Option<String>,
    pub time: Option<String>,
    pub license: License,
    pub authors: Vec<Author>,
    pub support: Support,
    pub funding: Vec<FundingLink>,
    pub require: IndexMap<String, String>,
    pub require_dev: IndexMap<String, String>,
    pub conflict: IndexMap<String, String>,
    pub replace: IndexMap<String, String>,
    pub provide: IndexMap<String, String>,
    pub suggest: IndexMap<String, String>,
    pub autoload: Autoload,
    pub autoload_dev: Autoload,
    pub include_path: Vec<String>,
    pub target_dir: Option<String>,
    pub minimum_stability: Option<String>,
    pub prefer_stable: Option<bool>,
    pub repositories: Repositories,
    pub config: ComposerConfig,
    pub scripts: Scripts,
    pub scripts_descriptions: IndexMap<String, String>,
    pub extra: Json,
    pub bin: Vec<String>,
    pub archive: Archive,
    pub abandoned: Option<Abandoned>,
    pub non_feature_branches: Vec<String>,
}

/// The entries `a` with those of `b` added or put in their place, up to the `n`-th.
pub open spec fn extended(a: Pairs, b: Pairs, n: int) -> Pairs
    decreases n,
{
    if n <= 0 || n > b.len() {
        a
    } else {
        with_link(extended(a, b, n - 1), b[n - 1].0, b[n - 1].1)
    }
}

/// The texts among the first `n` entries, with their names.
pub open spec fn named_texts(o: Entries, n: int) -> Pairs
    decreases n,
{
    if n <= 0 || n > o.len() {
        Seq::empty()
    } else {
        match o[n - 1].1 {
            JsonView::Text(t) => named_texts(o, n - 1).push((o[n - 1].0, t)),
            _ => named_texts(o, n - 1),
        }
    }
}

impl ComposerJson {
    /// The versions that branches stand for.
    pub open spec fn branch_aliases(&self) -> Pairs {
        match self.extra@.field("branch-alias"@) {
            Some(JsonView::Object(o)) => named_texts(o, o.len() as int),
            _ => Seq::empty(),
        }
    }

    /// The versions that branches stand for, as the manifest writes them: `dev-main` may stand
    /// for `1.0.x-dev`.
    pub fn get_branch_aliases(&self) -> (r: Vec<(String, String)>)
        ensures
            pairs(r@) == self.branch_aliases(),
    {
        let mut out: Vec<(String, String)> = Vec::new();
        assert(pairs(out@) =~= Seq::empty());
        if let Some(Json::Object(entries)) = self.extra.get("branch-alias") {
            proof {
                lemma_object_view(*entries);
            }
            let ghost o = entries_view(entries@);
            let mut i: usize = 0;
            while i < entries.len()
                invariant
                    i <= entries.len(),
                    o == entries_view(entries@),
                    pairs(out@) == named_texts(o, i as int),
                decreases entries.len() - i,
            {
                assert(o[i as int] == (entries@[i as int].0@, entries@[i as int].1@));
                if let Json::Text(t) = &entries[i].1 {
                    let one = (entries[i].0.clone(), t.clone());
                    proof {
                        lemma_pairs_push(out@, one);
                    }
                    out.push(one);
                }
                i += 1;
            }
            assert(o.len() == entries.len());
        }
        out
    }

    /// What a constraint asks for, and the version that it is to stand for, where it names one
    /// behind `as`.
    pub fn get_inline_alias(constraint: &str) -> (r: Option<(String, String)>)
        ensures
            r.is_some() == sides(constraint@, " as "@).is_some(),
            r matches Some(p) ==> (p.0@, p.1@) == sides(constraint@, " as "@)->0,
    {
        match split_text(constraint, " as ") {
            Some((actual, alias)) => Some((actual.to_owned(), alias.to_owned())),
            None => None,
        }
    }

    /// The full name of the package.
    pub fn package_name(&self) -> (r: Option<&str>)
        ensures
            r.is_some() == self.name.is_some(),
            r matches Some(n) ==> n@ == self.name->0@,
    {
        match &self.name {
            Some(n) => Some(n.as_str()),
            None => None,
        }
    }

    /// Whether this is a project rather than a library.
    pub fn is_root(&self) -> (r: bool)
        ensures
            r == (self.package_type@ == "project"@),
    {
        str_equal(self.package_type.as_str(), "project")
    }

    /// Every requirement, those for development last. Where both name a package, the
    /// one for development counts, in the place of the other.
    pub fn all_dependencies(&self) -> (r: IndexMap<String, String>)
        ensures
            links(r) == extended(
                links(self.require),
                links(self.require_dev),
                links(self.require_dev).len() as int,
            ),
    {
        let mut out = copy_links(&self.require);
        let n: usize = link_count(&self.require_dev);
        let mut i: usize = 0;
        while i < n
            invariant
                i <= n == links(self.require_dev).len(),
                links(out) == extended(
                    links(self.require),
                    links(self.require_dev),
                    i as int,
                ),
            decreases n - i,
        {
            if let Some((name, constraint)) = link_entry(&self.require_dev, i) {
                set_link(&mut out, name.to_owned(), constraint.to_owned());
            }
            i += 1;
        }
        out
    }

    /// The licenses as a list.
    pub fn licenses(&self) -> (r: Vec<String>)
        ensures
            views(r@) == self.license@,
    {
        self.license.as_vec()
    }
}

/// The type of a package that names none.
pub fn default_type() -> (r: String)
    ensures
        r@ == "library"@,
{
    "library".to_owned()
}

/// Whether the type is the one of a package that names none.
pub fn is_default_type(t: &String) -> (r: bool)
    ensures
        r == (t@ == "library"@),
{
    str_equal(t.as_str(), "library")
}

/// One license, several, or none.
#[derive(Debug, Clone, Default)]
pub enum License {
    #[default]
    Absent,
    Single(String),
    Multiple(Vec<String>),
}

impl View for License {
    type V = Seq<Seq<char>>;

    open spec fn view(&self) -> Seq<Seq<char>> {
        match self {
            License::Absent => Seq::empty(),
            License::Single(s) => seq![s@],
            License::Multiple(v) => views(v@),
        }
    }
}

impl License {
    /// The licenses as a list.
    pub fn as_vec(&self) -> (r: Vec<String>)
        ensures
            views(r@) == self@,
    {
        let mut out: Vec<String> = Vec::new();
        match self {
            License::Absent => {},
            License::Single(s) => {
                out.push(s.clone());
            },
            License::Multiple(v) => {
                return copy_strings(v);
            },
        }
        assert(views(out@) =~= self@);
        out
    }

    /// Whether no license is named.
    pub fn is_none(&self) -> (r: bool)
        ensures
            r == (*self is Absent),
    {
        matches!(self, License::Absent)
    }
}

/// An author.
#[derive(Debug, Clone, Default)]
pub struct Author {
    pub name: Option<String>,
    pub email: Option<String>,
    pub homepage: Option<String>,
    pub role: Option<String>,
}

/// Where to find help.
#[derive(Debug, Clone, Default)]
pub struct Support {
    pub email: Option<String>,
    pub issues: Option<String>,
    pub forum: Option<String>,
    pub wiki: Option<String>,
    pub irc: Option<String>,
    pub chat: Option<String>,
    pub source: Option<String>,
    pub docs: Option<String>,
    pub rss: Option<String>,
    pub security: Option<String>,
}

impl Support {
    /// Whether nothing is given.
    pub fn is_empty(&self) -> (r: bool)
        ensures
            r == (self.email is None
            && self.issues is None
            && self.forum is None
            && self.wiki is None
            && self.irc is None
            && self.chat is None
            && self.source is None
            && self.docs is None
            && self.rss is None
            && self.security is None),
    {
        self.email.is_none()
            && self.issues.is_none()
            && self.forum.is_none()
            && self.wiki.is_none()
            && self.irc.is_none()
            && self.chat.is_none()
            && self.source.is_none()
            && self.docs.is_none()
            && self.rss.is_none()
            && self.security.is_none()
    }
}

/// A way to fund a package.
#[derive(Debug, Clone)]
pub struct FundingLink {
    pub funding_type: String,
    pub url: String,
}

// ---------------------------------------------------------------------------
// Repositories
// ---------------------------------------------------------------------------
/// Repositories as a list or by name.
#[derive(Debug, Default)]
pub enum Repositories {
    #[default]
    Absent,
    Array(Vec<Repository>),
    Object(IndexMap<String, Repository>),
}

/// The entries of a map from names to repositories, in order.
pub uninterp spec fn named_repositories(m: IndexMap<String, Repository>) -> Seq<
    (Seq<char>, Repository),
>;

/// `IndexMap::len`: the number of entries.
#[verifier::external_body]
pub(crate) fn repository_count(m: &IndexMap<String, Repository>) -> (r: usize)
    ensures
        r == named_repositories(*m).len(),
{
    m.len()
}

/// `IndexMap::get_index`: the entry at a position.
#[verifier::external_body]
pub(crate) fn repository_entry(m: &IndexMap<String, Repository>, i: usize) -> (r: Option<
    (&str, &Repository),
>)
    ensures
        r.is_some() == (i < named_repositories(*m).len()),
        r matches Some(e) ==> (e.0@, *e.1) == named_repositories(*m)[i as int],
{
    m.get_index(i).map(|(k, v)| (k.as_str(), v))
}

impl Repositories {
    /// The repositories, one after the other.
    pub open spec fn listed(&self) -> Seq<Repository> {
        match self {
            Repositories::Absent => Seq::empty(),
            Repositories::Array(v) => v@,
            Repositories::Object(m) => named_repositories(*m).map_values(
                |e: (Seq<char>, Repository)| e.1,
            ),
        }
    }

    /// The repositories, one after the other.
    pub fn as_vec(&self) -> (r: Vec<&Repository>)
        ensures
            r@.map_values(|x: &Repository| *x) == self.listed(),
    {
        let mut out: Vec<&Repository> = Vec::new();
        match self {
            Repositories::Absent => {},
            Repositories::Array(v) => {
                let mut i: usize = 0;
                while i < v.len()
                    invariant
                        i <= v.len(),
                        out.len() == i,
                        forall|k: int| 0 <= k < i ==> *(#[trigger] out@[k]) == v@[k],
                    decreases v.len() - i,
                {
                    out.push(&v[i]);
                    i += 1;
                }
            },
            Repositories::Object(m) => {
                let n: usize = repository_count(m);
                let mut i: usize = 0;
                while i < n
                    invariant
                        i <= n == named_repositories(*m).len(),
                        out.len() == i,
                        forall|k: int|
                            0 <= k < i ==> *(#[trigger] out@[k]) == named_repositories(*m)[k].1,
                    decreases n - i,
                {
                    if let Some((_, one)) = repository_entry(m, i) {
                        out.push(one);
                    }
                    i += 1;
                }
            },
        }
        assert(out@.map_values(|x: &Repository| *x) =~= self.listed());
        out
    }

    /// Whether no repository is given.
    pub fn is_none(&self) -> (r: bool)
        ensures
            r == (*self is Absent),
    {
        matches!(self, Repositories::Absent)
    }
}

/// A repository.
#[derive(Debug)]
pub enum Repository {
    Composer { url: String, options: RepositoryOptions },
    Vcs { url: String },
    Git { url: String },
    GitHub { url: String },
    GitLab { url: String },
    Bitbucket { url: String },
    Path { url: String, options: PathRepositoryOptions },
    Artifact { url: String },
    /// Packages that are written out in the manifest.
    Package { package: Json },
    /// A switch without a name.
    Disabled(bool),
    /// A switch for the repository with a name.
    NamedDisabled { name: String, disabled: bool },
}

/// Options of a repository.
#[derive(Debug, Clone, Copy, Default, PartialEq, Eq, Structural)]
pub struct RepositoryOptions {
    pub ssl: Option<SslOptions>,
}

impl RepositoryOptions {
    /// Whether nothing is given.
    pub fn is_empty(&self) -> (r: bool)
        ensures
            r == (self.ssl is None),
    {
        self.ssl.is_none()
    }
}

/// Options for TLS.
#[derive(Debug, Clone, Copy, Default, PartialEq, Eq, Structural)]
pub struct SslOptions {
    pub verify_peer: Option<bool>,
}

/// Options of a repository in a local directory.
#[derive(Debug, Clone, Copy, Default, PartialEq, Eq, Structural)]
pub struct PathRepositoryOptions {
    pub symlink: Option<bool>,
}

impl PathRepositoryOptions {
    /// Whether nothing is given.
    pub fn is_empty(&self) -> (r: bool)
        ensures
            r == (self.symlink is None),
    {
        self.symlink.is_none()
    }
}

/// Whether the public repository is switched off by name.
pub open spec fn public_name(name: Seq<char>) -> bool {
    name == "packagist.org"@ || name == "packagist"@
}

/// The entry of a list switches the public repository off.
pub open spec fn disables_in_list(r: Repository) -> bool {
    match r {
        Repository::Disabled(b) => !b,
        Repository::NamedDisabled { name, disabled } => !disabled && public_name(name@),
        _ => false,
    }
}

/// The manifest switches the public repository off.
pub open spec fn public_repository_off(repositories: Repositories) -> bool {
    match repositories {
        Repositories::Absent => false,
        Repositories::Array(v) => exists|i: int|
            0 <= i < v@.len() && disables_in_list(#[trigger] v@[i]),
        Repositories::Object(m) => exists|i: int|
            0 <= i < named_repositories(m).len() && public_name(
                (#[trigger] named_repositories(m)[i]).0,
            ) && named_repositories(m)[i].1 == Repository::Disabled(false),
    }
}

fn is_public_name(name: &str) -> (r: bool)
    ensures
        r == public_name(name@),
{
    str_equal(name, "packagist.org") || str_equal(name, "packagist")
}

/// Whether the manifest switches the public repository off.
pub fn is_packagist_disabled(repositories: &Repositories) -> (r: bool)
    ensures
        r == public_repository_off(*repositories),
{
    match repositories {
        Repositories::Absent => false,
        Repositories::Array(v) => {
            let mut i: usize = 0;
            while i < v.len()
                invariant
                    i <= v.len(),
                    *repositories == Repositories::Array(*v),
                    forall|k: int| 0 <= k < i ==> !disables_in_list(#[trigger] v@[k]),
                decreases v.len() - i,
            {
                let off = match &v[i] {
                    Repository::Disabled(b) => !*b,
                    Repository::NamedDisabled { name, disabled } => !*disabled && is_public_name(
                        name.as_str(),
                    ),
                    _ => false,
                };
                if off {
                    proof {
                        let list = v@;
                        assert(disables_in_list(list[i as int]));
                        assert(exists|k: int|
                            0 <= k < list.len() && disables_in_list(#[trigger] list[k]));
                        assert(*repositories is Array);
                        assert(repositories->Array_0@ == list);
                        assert(public_repository_off(*repositories));
                    }
                    return true;
                }
                i += 1;
            }
            false
        },
        Repositories::Object(m) => {
            let n: usize = repository_count(m);
            let mut i: usize = 0;
            while i < n
                invariant
                    i <= n == named_repositories(*m).len(),
                    *repositories == Repositories::Object(*m),
                    forall|k: int|
                        0 <= k < i ==> !(public_name((#[trigger] named_repositories(*m)[k]).0)
                            && named_repositories(*m)[k].1 == Repository::Disabled(false)),
                decreases n - i,
            {
                if let Some((name, one)) = repository_entry(m, i) {
                    let off = match one {
                        Repository::Disabled(b) => !*b,
                        _ => false,
                    };
                    if is_public_name(name) && off {
                        assert(named_repositories(*m)[i as int].0 == name@);
                        return true;
                    }
                }
                i += 1;
            }
            false
        },
    }
}

/// A package that is written out in the manifest.
#[derive(Debug)]
pub struct PackageDefinition {
    pub name: String,
    pub version: String,
    pub source: Option<SourceDefinition>,
    pub dist: Option<DistDefinition>,
    pub require: IndexMap<String, String>,
    pub autoload: Autoload,
}

/// Where the source of such a package is kept.
#[derive(Debug, Clone)]
pub struct SourceDefinition {
    pub source_type: String,
    pub url: String,
    pub reference: String,
}

/// Where the archive of such a package is kept.
#[derive(Debug, Clone)]
pub struct DistDefinition {
    pub dist_type: String,
    pub url: String,
    pub reference: Option<String>,
    pub shasum: Option<String>,
}

// ---------------------------------------------------------------------------
// Configuration
// ---------------------------------------------------------------------------
/// The section `config` of a manifest.
#[derive(Debug, Default)]
pub struct ComposerConfig {
    pub process_timeout: Option<u64>,
    pub use_include_path: Option<bool>,
    pub preferred_install: Option<PreferredInstall>,
    pub store_auths: Option<StoreAuths>,
    pub github_protocols: Option<Vec<String>>,
    pub github_oauth: Option<IndexMap<String, String>>,
    pub gitlab_oauth: Option<IndexMap<String, String>>,
    pub gitlab_token: Option<IndexMap<String, String>>,
    pub http_basic: Option<IndexMap<String, HttpBasicAuth>>,
    pub bearer: Option<IndexMap<String, String>>,
    pub platform: Option<IndexMap<String, PlatformValue>>,
    pub vendor_dir: Option<String>,
    pub bin_dir: Option<String>,
    pub data_dir: Option<String>,
    pub cache_dir: Option<String>,
    pub cache_files_dir: Option<String>,
    pub cache_repo_dir: Option<String>,
    pub cache_vcs_dir: Option<String>,
    pub cache_files_ttl: Option<u64>,
    pub cache_files_maxsize: Option<String>,
    pub cache_read_only: Option<bool>,
    pub bin_compat: Option<String>,
    pub discard_changes: Option<DiscardChanges>,
    pub autoloader_suffix: Option<String>,
    pub optimize_autoloader: Option<bool>,
    pub sort_packages: Option<bool>,
    pub classmap_authoritative: Option<bool>,
    pub apcu_autoloader: Option<bool>,
    pub prepend_autoloader: Option<bool>,
    pub github_domains: Option<Vec<String>>,
    pub gitlab_domains: Option<Vec<String>>,
    pub github_expose_hostname: Option<bool>,
    pub htaccess_protect: Option<bool>,
    pub lock: Option<bool>,
    pub platform_check: Option<PlatformCheck>,
    pub archive_format: Option<String>,
    pub archive_dir: Option<String>,
    pub secure_http: Option<bool>,
    pub secure_svn_domains: Option<Vec<String>>,
    pub allow_plugins: Option<AllowPlugins>,
    pub use_parent_dir: Option<bool>,
}

impl ComposerConfig {
    /// Whether nothing is configured.
    pub fn is_empty(&self) -> (r: bool)
        ensures
            r == (self.process_timeout is None
            && self.use_include_path is None
            && self.preferred_install is None
            && self.store_auths is None
            && self.github_protocols is None
            && self.github_oauth is None
            && self.gitlab_oauth is None
            && self.gitlab_token is None
            && self.http_basic is None
            && self.bearer is None
            && self.platform is None
            && self.vendor_dir is None
            && self.bin_dir is None
            && self.data_dir is None
            && self.cache_dir is None
            && self.cache_files_dir is None
            && self.cache_repo_dir is None
            && self.cache_vcs_dir is None
            && self.cache_files_ttl is None
            && self.cache_files_maxsize is None
            && self.cache_read_only is None
            && self.bin_compat is None
            && self.discard_changes is None
            && self.autoloader_suffix is None
            && self.optimize_autoloader is None
            && self.sort_packages is None
            && self.classmap_authoritative is None
            && self.apcu_autoloader is None
            && self.prepend_autoloader is None
            && self.github_domains is None
            && self.gitlab_domains is None
            && self.github_expose_hostname is None
            && self.htaccess_protect is None
            && self.lock is None
            && self.platform_check is None
            && self.archive_format is None
            && self.archive_dir is None
            && self.secure_http is None
            && self.secure_svn_domains is None
            && self.allow_plugins is None
            && self.use_parent_dir is None),
    {
        self.process_timeout.is_none()
            && self.use_include_path.is_none()
            && self.preferred_install.is_none()
            && self.store_auths.is_none()
            && self.github_protocols.is_none()
            && self.github_oauth.is_none()
            && self.gitlab_oauth.is_none()
            && self.gitlab_token.is_none()
            && self.http_basic.is_none()
            && self.bearer.is_none()
            && self.platform.is_none()
            && self.vendor_dir.is_none()
            && self.bin_dir.is_none()
            && self.data_dir.is_none()
            && self.cache_dir.is_none()
            && self.cache_files_dir.is_none()
            && self.cache_repo_dir.is_none()
            && self.cache_vcs_dir.is_none()
            && self.cache_files_ttl.is_none()
            && self.cache_files_maxsize.is_none()
            && self.cache_read_only.is_none()
            && self.bin_compat.is_none()
            && self.discard_changes.is_none()
            && self.autoloader_suffix.is_none()
            && self.optimize_autoloader.is_none()
            && self.sort_packages.is_none()
            && self.classmap_authoritative.is_none()
            && self.apcu_autoloader.is_none()
            && self.prepend_autoloader.is_none()
            && self.github_domains.is_none()
            && self.gitlab_domains.is_none()
            && self.github_expose_hostname.is_none()
            && self.htaccess_protect.is_none()
            && self.lock.is_none()
            && self.platform_check.is_none()
            && self.archive_format.is_none()
            && self.archive_dir.is_none()
            && self.secure_http.is_none()
            && self.secure_svn_domains.is_none()
            && self.allow_plugins.is_none()
            && self.use_parent_dir.is_none()
    }
}

/// How packages are preferably installed: all of them, or by name.
#[derive(Debug)]
pub enum PreferredInstall {
    Global(String),
    PerPackage(IndexMap<String, String>),
}

impl Default for PreferredInstall {
    fn default() -> (r: PreferredInstall)
        ensures
            r matches PreferredInstall::Global(s) && s@ == "dist"@,
    {
        PreferredInstall::Global("dist".to_owned())
    }
}

/// Whether credentials are stored.
#[derive(Debug, Clone)]
pub enum StoreAuths {
    Bool(bool),
    Prompt(String),
}

impl Default for StoreAuths {
    fn default() -> (r: StoreAuths)
        ensures
            r matches StoreAuths::Prompt(s) && s@ == "prompt"@,
    {
        StoreAuths::Prompt("prompt".to_owned())
    }
}

/// A user name and a password.
#[derive(Debug, Clone)]
pub struct HttpBasicAuth {
    pub username: String,
    pub password: String,
}

/// A platform package with a version of its own, or switched off.
#[derive(Debug, Clone)]
pub enum PlatformValue {
    Version(String),
    Disabled(bool),
}

/// What becomes of local changes.
#[derive(Debug, Clone)]
pub enum DiscardChanges {
    Bool(bool),
    /// `stash` or `discard`.
    Mode(String),
}

impl Default for DiscardChanges {
    fn default() -> (r: DiscardChanges)
        ensures
            r == DiscardChanges::Bool(false),
    {
        DiscardChanges::Bool(false)
    }
}

/// Whether the platform is checked when classes are loaded.
#[derive(Debug, Clone)]
pub enum PlatformCheck {
    Bool(bool),
    /// `php-only`.
    Mode(String),
}

impl Default for PlatformCheck {
    fn default() -> (r: PlatformCheck)
        ensures
            r == PlatformCheck::Bool(true),
    {
        PlatformCheck::Bool(true)
    }
}

/// Which plugins may run: all, none, or by name.
#[derive(Debug)]
pub enum AllowPlugins {
    Bool(bool),
    List(IndexMap<String, bool>),
}

impl Default for AllowPlugins {
    fn default() -> (r: AllowPlugins)
        ensures
            r == AllowPlugins::Bool(true),
    {
        AllowPlugins::Bool(true)
    }
}

// ---------------------------------------------------------------------------
// Scripts and the rest
// ---------------------------------------------------------------------------
/// The scripts for events, and others by name.
#[derive(Debug, Default)]
pub struct Scripts {
    pub pre_install_cmd: ScriptValue,
    pub post_install_cmd: ScriptValue,
    pub pre_update_cmd: ScriptValue,
    pub post_update_cmd: ScriptValue,
    pub pre_status_cmd: ScriptValue,
    pub post_status_cmd: ScriptValue,
    pub pre_archive_cmd: ScriptValue,
    pub post_archive_cmd: ScriptValue,
    pub pre_autoload_dump: ScriptValue,
    pub post_autoload_dump: ScriptValue,
    pub post_root_package_install: ScriptValue,
    pub post_create_project_cmd: ScriptValue,
    pub pre_operations_exec: ScriptValue,
    pub custom: IndexMap<String, ScriptValue>,
}

/// The entries of a map from names to scripts, in order.
pub uninterp spec fn named_scripts(m: IndexMap<String, ScriptValue>) -> Seq<
    (Seq<char>, ScriptValue),
>;

/// `IndexMap::len`: the number of entries.
#[verifier::external_body]
pub(crate) fn script_count(m: &IndexMap<String, ScriptValue>) -> (r: usize)
    ensures
        r == named_scripts(*m).len(),
{
    m.len()
}

impl Scripts {
    /// Whether there are no scripts.
    pub fn is_empty(&self) -> (r: bool)
        ensures
            r == (self.pre_install_cmd@.len() == 0
            && self.post_install_cmd@.len() == 0
            && self.pre_update_cmd@.len() == 0
            && self.post_update_cmd@.len() == 0
            && self.pre_status_cmd@.len() == 0
            && self.post_status_cmd@.len() == 0
            && self.pre_archive_cmd@.len() == 0
            && self.post_archive_cmd@.len() == 0
            && self.pre_autoload_dump@.len() == 0
            && self.post_autoload_dump@.len() == 0
            && self.post_root_package_install@.len() == 0
            && self.post_create_project_cmd@.len() == 0
            && self.pre_operations_exec@.len() == 0
            && named_scripts(self.custom).len() == 0),
    {
        self.pre_install_cmd.is_empty()
            && self.post_install_cmd.is_empty()
            && self.pre_update_cmd.is_empty()
            && self.post_update_cmd.is_empty()
            && self.pre_status_cmd.is_empty()
            && self.post_status_cmd.is_empty()
            && self.pre_archive_cmd.is_empty()
            && self.post_archive_cmd.is_empty()
            && self.pre_autoload_dump.is_empty()
            && self.post_autoload_dump.is_empty()
            && self.post_root_package_install.is_empty()
            && self.post_create_project_cmd.is_empty()
            && self.pre_operations_exec.is_empty()
            && script_count(&self.custom) == 0
    }
}

/// One command, several, or none.
#[derive(Debug, Clone, Default)]
pub enum ScriptValue {
    #[default]
    Absent,
    Single(String),
    Multiple(Vec<String>),
}

impl View for ScriptValue {
    type V = Seq<Seq<char>>;

    open spec fn view(&self) -> Seq<Seq<char>> {
        match self {
            ScriptValue::Absent => Seq::empty(),
            ScriptValue::Single(s) => seq![s@],
            ScriptValue::Multiple(v) => views(v@),
        }
    }
}

impl ScriptValue {
    /// The commands as a list.
    pub fn as_vec(&self) -> (r: Vec<String>)
        ensures
            views(r@) == self@,
    {
        let mut out: Vec<String> = Vec::new();
        match self {
            ScriptValue::Absent => {},
            ScriptValue::Single(s) => {
                out.push(s.clone());
            },
            ScriptValue::Multiple(v) => {
                return copy_strings(v);
            },
        }
        assert(views(out@) =~= self@);
        out
    }

    /// Whether there are no commands.
    pub fn is_empty(&self) -> (r: bool)
        ensures
            r == (self@.len() == 0),
    {
        match self {
            ScriptValue::Absent => true,
            ScriptValue::Single(_) => false,
            ScriptValue::Multiple(v) => v.len() == 0,
        }
    }
}

/// How archives of the package are made.
#[derive(Debug, Clone, Default)]
pub struct Archive {
    pub name: Option<String>,
    pub exclude: Vec<String>,
}

impl Archive {
    /// Whether nothing is given.
    pub fn is_empty(&self) -> (r: bool)
        ensures
            r == (self.name is None && self.exclude@.len() == 0),
    {
        self.name.is_none() && self.exclude.len() == 0
    }
}

} // verus!
