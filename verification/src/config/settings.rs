//! The configuration: its defaults, and how files and the environment change it.
use vstd::prelude::*;
use vstd::string::*;


use crate::json::{
    copy, entries_view, items_view, lemma_array_view, lemma_object_view, put, with_entry, Entries,
    Json, JsonView, Number, NumberView,
};
use crate::links::{with_link, Pairs};
use crate::lock::opt;
use crate::paths::{join_path, joined_path};
use crate::sort::{pairs, put_name};
use crate::text::{
    contains, lemma_views_push, lowercase, replace, replaced, str_equal, to_lowercase, views,
};

verus! {

/// How packages are preferably installed.
#[derive(Debug, Clone, Copy, PartialEq, Eq, Structural)]
pub enum PreferredInstall {
    Auto,
    Source,
    Dist,
}

impl Default for PreferredInstall {
    fn default() -> (r: PreferredInstall)
        ensures
            r == PreferredInstall::Dist,
    {
        PreferredInstall::Dist
    }
}

impl PreferredInstall {
    /// What a word stands for, whatever the case of its letters.
    pub open spec fn named(s: Seq<char>) -> Option<PreferredInstall> {
        let w = lowercase(s);
        if w == "auto"@ {
            Some(PreferredInstall::Auto)
        } else if w == "source"@ {
            Some(PreferredInstall::Source)
        } else if w == "dist"@ {
            Some(PreferredInstall::Dist)
        } else {
            None
        }
    }

    /// What a word stands for, whatever the case of its letters.
    pub fn from_str(s: &str) -> (r: Option<PreferredInstall>)
        ensures
            r == PreferredInstall::named(s@),
    {
        let word = to_lowercase(s);
        let w = word.as_str();
        if str_equal(w, "auto") {
            Some(PreferredInstall::Auto)
        } else if str_equal(w, "source") {
            Some(PreferredInstall::Source)
        } else if str_equal(w, "dist") {
            Some(PreferredInstall::Dist)
        } else {
            None
        }
    }
}

/// Whether credentials are stored.
#[derive(Debug, Clone, Copy, PartialEq, Eq, Structural)]
pub enum StoreAuths {
    True,
    False,
    Prompt,
}

impl Default for StoreAuths {
    fn default() -> (r: StoreAuths)
        ensures
            r == StoreAuths::Prompt,
    {
        StoreAuths::Prompt
    }
}

impl StoreAuths {
    /// What a word stands for, whatever the case of its letters.
    pub open spec fn named(s: Seq<char>) -> Option<StoreAuths> {
        let w = lowercase(s);
        if w == "true"@ {
            Some(StoreAuths::True)
        } else if w == "false"@ {
            Some(StoreAuths::False)
        } else if w == "prompt"@ {
            Some(StoreAuths::Prompt)
        } else {
            None
        }
    }

    /// What a word stands for, whatever the case of its letters.
    pub fn from_str(s: &str) -> (r: Option<StoreAuths>)
        ensures
            r == StoreAuths::named(s@),
    {
        let word = to_lowercase(s);
        let w = word.as_str();
        if str_equal(w, "true") {
            Some(StoreAuths::True)
        } else if str_equal(w, "false") {
            Some(StoreAuths::False)
        } else if str_equal(w, "prompt") {
            Some(StoreAuths::Prompt)
        } else {
            None
        }
    }
}

/// What becomes of local changes.
#[derive(Debug, Clone, Copy, PartialEq, Eq, Structural)]
pub enum DiscardChanges {
    True,
    False,
    Stash,
}

impl Default for DiscardChanges {
    fn default() -> (r: DiscardChanges)
        ensures
            r == DiscardChanges::False,
    {
        DiscardChanges::False
    }
}

impl DiscardChanges {
    /// What a word stands for, whatever the case of its letters.
    pub open spec fn named(s: Seq<char>) -> Option<DiscardChanges> {
        let w = lowercase(s);
        if w == "true"@ {
            Some(DiscardChanges::True)
        } else if w == "false"@ {
            Some(DiscardChanges::False)
        } else if w == "stash"@ {
            Some(DiscardChanges::Stash)
        } else {
            None
        }
    }

    /// What a word stands for, whatever the case of its letters.
    pub fn from_str(s: &str) -> (r: Option<DiscardChanges>)
        ensures
            r == DiscardChanges::named(s@),
    {
        let word = to_lowercase(s);
        let w = word.as_str();
        if str_equal(w, "true") {
            Some(DiscardChanges::True)
        } else if str_equal(w, "false") {
            Some(DiscardChanges::False)
        } else if str_equal(w, "stash") {
            Some(DiscardChanges::Stash)
        } else {
            None
        }
    }
}

/// Whether the platform is checked when classes are loaded.
#[derive(Debug, Clone, Copy, PartialEq, Eq, Structural)]
pub enum PlatformCheck {
    PhpOnly,
    True,
    False,
}

impl Default for PlatformCheck {
    fn default() -> (r: PlatformCheck)
        ensures
            r == PlatformCheck::PhpOnly,
    {
        PlatformCheck::PhpOnly
    }
}

impl PlatformCheck {
    /// What a word stands for, whatever the case of its letters.
    pub open spec fn named(s: Seq<char>) -> Option<PlatformCheck> {
        let w = lowercase(s);
        if w == "php-only"@ {
            Some(PlatformCheck::PhpOnly)
        } else if w == "true"@ {
            Some(PlatformCheck::True)
        } else if w == "false"@ {
            Some(PlatformCheck::False)
        } else {
            None
        }
    }

    /// What a word stands for, whatever the case of its letters.
    pub fn from_str(s: &str) -> (r: Option<PlatformCheck>)
        ensures
            r == PlatformCheck::named(s@),
    {
        let word = to_lowercase(s);
        let w = word.as_str();
        if str_equal(w, "php-only") {
            Some(PlatformCheck::PhpOnly)
        } else if str_equal(w, "true") {
            Some(PlatformCheck::True)
        } else if str_equal(w, "false") {
            Some(PlatformCheck::False)
        } else {
            None
        }
    }
}

/// Which plugins may run: all, none, or by name.
#[derive(Debug, Clone, PartialEq, Eq)]
pub enum AllowPlugins {
    Bool(bool),
    List(Vec<(String, bool)>),
}

/// Which plugins may run.
pub enum PluginsView {
    Bool(bool),
    List(Seq<(Seq<char>, bool)>),
}

/// What a list of switches holds.
pub open spec fn switches(v: Seq<(String, bool)>) -> Seq<(Seq<char>, bool)> {
    v.map_values(|e: (String, bool)| (e.0@, e.1))
}

impl View for AllowPlugins {
    type V = PluginsView;

    open spec fn view(&self) -> PluginsView {
        match self {
            AllowPlugins::Bool(b) => PluginsView::Bool(*b),
            AllowPlugins::List(v) => PluginsView::List(switches(v@)),
        }
    }
}

impl Default for AllowPlugins {
    fn default() -> (r: AllowPlugins)
        ensures
            r@ == PluginsView::Bool(true),
    {
        AllowPlugins::Bool(true)
    }
}

/// What an audit reports.
#[derive(Debug, Clone)]
pub struct AuditConfig {
    /// Advisories that are not reported.
    pub ignore: Vec<String>,
    /// What becomes of abandoned packages.
    pub abandoned: String,
}

/// What becomes of abandoned packages where nothing is configured.
pub fn default_audit_abandoned() -> (r: String)
    ensures
        r@ == "fail"@,
{
    "fail".to_owned()
}

impl Default for AuditConfig {
    fn default() -> (r: AuditConfig)
        ensures
            r.ignore@.len() == 0,
            r.abandoned@ == "fail"@,
    {
        AuditConfig { ignore: Vec::new(), abandoned: default_audit_abandoned() }
    }
}

/// A user name and a password.
#[derive(Debug, Clone)]
pub struct HttpBasicAuth {
    pub username: String,
    pub password: String,
}

/// A token for GitLab.
#[derive(Debug, Clone)]
pub enum GitLabToken {
    Token(String),
    OAuth { oauth_token: String },
}

/// A key and a secret for Bitbucket.
#[derive(Debug, Clone)]
pub struct BitbucketOAuth {
    pub consumer_key: String,
    pub consumer_secret: String,
}

/// Where a value comes from.
#[derive(Debug, Clone, PartialEq, Eq)]
pub enum ConfigSource {
    Default,
    Global,
    Project,
    /// A variable of the environment.
    Environment(String),
}

/// Where a value comes from.
pub enum SourceView {
    Default,
    Global,
    Project,
    Environment(Seq<char>),
}

impl View for ConfigSource {
    type V = SourceView;

    open spec fn view(&self) -> SourceView {
        match self {
            ConfigSource::Default => SourceView::Default,
            ConfigSource::Global => SourceView::Global,
            ConfigSource::Project => SourceView::Project,
            ConfigSource::Environment(v) => SourceView::Environment(v@),
        }
    }
}

/// The configuration.
#[derive(Debug)]
pub struct Config {
    pub vendor_dir: String,
    pub bin_dir: String,
    pub cache_dir: Option<String>,
    pub data_dir: Option<String>,
    pub home_dir: Option<String>,
    pub cache_files_dir: Option<String>,
    pub cache_repo_dir: Option<String>,
    pub cache_vcs_dir: Option<String>,
    pub cache_ttl: u64,
    pub cache_files_ttl: Option<u64>,
    pub cache_files_maxsize: u64,
    pub cache_read_only: bool,
    pub process_timeout: u64,
    pub use_include_path: bool,
    pub use_parent_dir: Option<String>,
    pub preferred_install: PreferredInstall,
    pub store_auths: StoreAuths,
    pub notify_on_install: bool,
    pub discard_changes: DiscardChanges,
    pub optimize_autoloader: bool,
    pub sort_packages: bool,
    pub classmap_authoritative: bool,
    pub apcu_autoloader: bool,
    pub prepend_autoloader: bool,
    pub autoloader_suffix: Option<String>,
    pub lock: bool,
    pub platform_check: PlatformCheck,
    pub allow_plugins: AllowPlugins,
    pub audit: AuditConfig,
    pub secure_http: bool,
    pub disable_tls: bool,
    pub secure_svn_domains: Vec<String>,
    pub cafile: Option<String>,
    pub capath: Option<String>,
    pub github_protocols: Vec<String>,
    pub gitlab_protocol: Option<String>,
    pub github_domains: Vec<String>,
    pub gitlab_domains: Vec<String>,
    pub bitbucket_domains: Vec<String>,
    pub forgejo_domains: Vec<String>,
    pub use_github_api: bool,
    pub github_expose_hostname: bool,
    pub bitbucket_expose_hostname: bool,
    pub http_basic: Vec<(String, HttpBasicAuth)>,
    pub bearer: Vec<(String, String)>,
    pub github_oauth: Vec<(String, String)>,
    pub gitlab_oauth: Vec<(String, String)>,
    pub gitlab_token: Vec<(String, GitLabToken)>,
    pub bitbucket_oauth: Vec<(String, BitbucketOAuth)>,
    pub forgejo_token: Vec<(String, String)>,
    pub platform: Vec<(String, Json)>,
    pub archive_format: String,
    pub archive_dir: String,
    pub htaccess_protect: bool,
    pub bin_compat: String,
    pub custom_headers: Vec<(String, String)>,
    pub client_certificate: Vec<(String, Json)>,
    pub base_dir: Option<String>,
    pub sources: Vec<(String, ConfigSource)>,
}

/// What files and the environment can change of a configuration.
pub struct ConfigView {
    pub vendor_dir: Seq<char>,
    pub bin_dir: Seq<char>,
    pub cache_dir: Option<Seq<char>>,
    pub data_dir: Option<Seq<char>>,
    pub home_dir: Option<Seq<char>>,
    pub cache_files_dir: Option<Seq<char>>,
    pub cache_repo_dir: Option<Seq<char>>,
    pub cache_vcs_dir: Option<Seq<char>>,
    pub cache_read_only: bool,
    pub process_timeout: u64,
    pub use_include_path: bool,
    pub preferred_install: PreferredInstall,
    pub store_auths: StoreAuths,
    pub notify_on_install: bool,
    pub discard_changes: DiscardChanges,
    pub optimize_autoloader: bool,
    pub sort_packages: bool,
    pub classmap_authoritative: bool,
    pub apcu_autoloader: bool,
    pub lock: bool,
    pub platform_check: PlatformCheck,
    pub allow_plugins: PluginsView,
    pub secure_http: bool,
    pub disable_tls: bool,
    pub github_protocols: Seq<Seq<char>>,
    pub github_domains: Seq<Seq<char>>,
    pub gitlab_domains: Seq<Seq<char>>,
    pub github_oauth: Pairs,
    pub gitlab_oauth: Pairs,
    pub platform: Entries,
    pub htaccess_protect: bool,
    pub base_dir: Option<Seq<char>>,
    pub sources: Sources,
}

/// Where values come from, by the names of their settings.
pub type Sources = Seq<(Seq<char>, SourceView)>;

/// What a list of origins holds.
pub open spec fn sources_view(v: Seq<(String, ConfigSource)>) -> Sources {
    v.map_values(|e: (String, ConfigSource)| (e.0@, e.1@))
}

/// What files and the environment can change of a configuration.
#[verifier::opaque]
pub open spec fn config_view(c: Config) -> ConfigView {
    ConfigView {
        vendor_dir: c.vendor_dir@,
        bin_dir: c.bin_dir@,
        cache_dir: opt(c.cache_dir),
        data_dir: opt(c.data_dir),
        home_dir: opt(c.home_dir),
        cache_files_dir: opt(c.cache_files_dir),
        cache_repo_dir: opt(c.cache_repo_dir),
        cache_vcs_dir: opt(c.cache_vcs_dir),
        cache_read_only: c.cache_read_only,
        process_timeout: c.process_timeout,
        use_include_path: c.use_include_path,
        preferred_install: c.preferred_install,
        store_auths: c.store_auths,
        notify_on_install: c.notify_on_install,
        discard_changes: c.discard_changes,
        optimize_autoloader: c.optimize_autoloader,
        sort_packages: c.sort_packages,
        classmap_authoritative: c.classmap_authoritative,
        apcu_autoloader: c.apcu_autoloader,
        lock: c.lock,
        platform_check: c.platform_check,
        allow_plugins: c.allow_plugins@,
        secure_http: c.secure_http,
        disable_tls: c.disable_tls,
        github_protocols: views(c.github_protocols@),
        github_domains: views(c.github_domains@),
        gitlab_domains: views(c.gitlab_domains@),
        github_oauth: pairs(c.github_oauth@),
        gitlab_oauth: pairs(c.gitlab_oauth@),
        platform: entries_view(c.platform@),
        htaccess_protect: c.htaccess_protect,
        base_dir: opt(c.base_dir),
        sources: sources_view(c.sources@),
    }
}

impl View for Config {
    type V = ConfigView;

    open spec fn view(&self) -> ConfigView {
        config_view(*self)
    }
}

/// What neither files nor the environment change is the same.
#[verifier::opaque]
pub open spec fn rest_unchanged(a: Config, b: Config) -> bool {
    &&& a.cache_ttl == b.cache_ttl
    &&& a.cache_files_ttl == b.cache_files_ttl
    &&& a.cache_files_maxsize == b.cache_files_maxsize
    &&& a.use_parent_dir == b.use_parent_dir
    &&& a.prepend_autoloader == b.prepend_autoloader
    &&& a.autoloader_suffix == b.autoloader_suffix
    &&& a.audit == b.audit
    &&& a.secure_svn_domains == b.secure_svn_domains
    &&& a.cafile == b.cafile
    &&& a.capath == b.capath
    &&& a.gitlab_protocol == b.gitlab_protocol
    &&& a.bitbucket_domains == b.bitbucket_domains
    &&& a.forgejo_domains == b.forgejo_domains
    &&& a.use_github_api == b.use_github_api
    &&& a.github_expose_hostname == b.github_expose_hostname
    &&& a.bitbucket_expose_hostname == b.bitbucket_expose_hostname
    &&& a.http_basic == b.http_basic
    &&& a.bearer == b.bearer
    &&& a.gitlab_token == b.gitlab_token
    &&& a.bitbucket_oauth == b.bitbucket_oauth
    &&& a.forgejo_token == b.forgejo_token
    &&& a.archive_format == b.archive_format
    &&& a.archive_dir == b.archive_dir
    &&& a.bin_compat == b.bin_compat
    &&& a.custom_headers == b.custom_headers
    &&& a.client_certificate == b.client_certificate
}

/// What neither files nor the environment change is as it is by default.
pub open spec fn rest_is_default(c: Config) -> bool {
    &&& c.cache_ttl == 15552000
    &&& c.cache_files_ttl is None
    &&& c.cache_files_maxsize == 314572800
    &&& opt(c.use_parent_dir) == Some("prompt"@)
    &&& c.prepend_autoloader
    &&& c.autoloader_suffix is None
    &&& c.audit.ignore@.len() == 0
    &&& c.audit.abandoned@ == "fail"@
    &&& c.secure_svn_domains@.len() == 0
    &&& c.cafile is None
    &&& c.capath is None
    &&& c.gitlab_protocol is None
    &&& c.bitbucket_domains@.len() == 0
    &&& views(c.forgejo_domains@) == seq!["codeberg.org"@]
    &&& c.use_github_api
    &&& c.github_expose_hostname
    &&& c.bitbucket_expose_hostname
    &&& c.http_basic@.len() == 0
    &&& c.bearer@.len() == 0
    &&& c.gitlab_token@.len() == 0
    &&& c.bitbucket_oauth@.len() == 0
    &&& c.forgejo_token@.len() == 0
    &&& c.archive_format@ == "tar"@
    &&& c.archive_dir@ == "."@
    &&& c.bin_compat@ == "auto"@
    &&& c.custom_headers@.len() == 0
    &&& c.client_certificate@.len() == 0
}

/// Where packages are installed.
pub fn default_vendor_dir() -> (r: String)
    ensures
        r@ == "vendor"@,
{
    "vendor".to_owned()
}

/// Where binaries are linked.
pub fn default_bin_dir() -> (r: String)
    ensures
        r@ == "vendor/bin"@,
{
    "vendor/bin".to_owned()
}

/// How many seconds a process may take.
pub fn default_process_timeout() -> (r: u64)
    ensures
        r == 300,
{
    300
}

/// How many seconds cached data is kept: six months.
pub fn default_cache_ttl() -> (r: u64)
    ensures
        r == 15552000,
{
    15552000
}

/// How many bytes of archives are cached: three hundred times a mebibyte.
pub fn default_cache_files_maxsize() -> (r: u64)
    ensures
        r == 314572800,
{
    314572800
}

/// How GitHub is spoken to.
pub fn default_github_protocols() -> (r: Vec<String>)
    ensures
        views(r@) == seq!["https"@, "ssh"@, "git"@],
{
    let mut out: Vec<String> = Vec::new();
    out.push("https".to_owned());
    out.push("ssh".to_owned());
    out.push("git".to_owned());
    assert(views(out@) =~= seq!["https"@, "ssh"@, "git"@]);
    out
}

/// The domains of GitHub.
pub fn default_github_domains() -> (r: Vec<String>)
    ensures
        views(r@) == seq!["github.com"@],
{
    let mut out: Vec<String> = Vec::new();
    out.push("github.com".to_owned());
    assert(views(out@) =~= seq!["github.com"@]);
    out
}

/// The domains of GitLab.
pub fn default_gitlab_domains() -> (r: Vec<String>)
    ensures
        views(r@) == seq!["gitlab.com"@],
{
    let mut out: Vec<String> = Vec::new();
    out.push("gitlab.com".to_owned());
    assert(views(out@) =~= seq!["gitlab.com"@]);
    out
}

/// The domains of Forgejo.
pub fn default_forgejo_domains() -> (r: Vec<String>)
    ensures
        views(r@) == seq!["codeberg.org"@],
{
    let mut out: Vec<String> = Vec::new();
    out.push("codeberg.org".to_owned());
    assert(views(out@) =~= seq!["codeberg.org"@]);
    out
}

/// The format of archives.
pub fn default_archive_format() -> (r: String)
    ensures
        r@ == "tar"@,
{
    "tar".to_owned()
}

/// Where archives are written.
pub fn default_archive_dir() -> (r: String)
    ensures
        r@ == "."@,
{
    ".".to_owned()
}

/// How binaries are linked.
pub fn default_bin_compat() -> (r: String)
    ensures
        r@ == "auto"@,
{
    "auto".to_owned()
}

/// The value of a switch that is on by default.
pub fn default_true() -> (r: bool)
    ensures
        r,
{
    true
}

/// The configuration where nothing is configured.
pub open spec fn default_config() -> ConfigView {
    ConfigView {
        vendor_dir: "vendor"@,
        bin_dir: "vendor/bin"@,
        cache_dir: None,
        data_dir: None,
        home_dir: None,
        cache_files_dir: None,
        cache_repo_dir: None,
        cache_vcs_dir: None,
        cache_read_only: false,
        process_timeout: 300,
        use_include_path: false,
        preferred_install: PreferredInstall::Dist,
        store_auths: StoreAuths::Prompt,
        notify_on_install: true,
        discard_changes: DiscardChanges::False,
        optimize_autoloader: false,
        sort_packages: false,
        classmap_authoritative: false,
        apcu_autoloader: false,
        lock: true,
        platform_check: PlatformCheck::PhpOnly,
        allow_plugins: PluginsView::Bool(true),
        secure_http: true,
        disable_tls: false,
        github_protocols: seq!["https"@, "ssh"@, "git"@],
        github_domains: seq!["github.com"@],
        gitlab_domains: seq!["gitlab.com"@],
        github_oauth: Seq::empty(),
        gitlab_oauth: Seq::empty(),
        platform: Seq::empty(),
        htaccess_protect: true,
        base_dir: None,
        sources: Seq::empty(),
    }
}

impl Default for Config {
    fn default() -> (r: Config)
        ensures
            r@ == default_config(),
            rest_is_default(r),
    {
        let r = Config {
            vendor_dir: default_vendor_dir(),
            bin_dir: default_bin_dir(),
            cache_dir: None,
            data_dir: None,
            home_dir: None,
            cache_files_dir: None,
            cache_repo_dir: None,
            cache_vcs_dir: None,
            cache_ttl: default_cache_ttl(),
            cache_files_ttl: None,
            cache_files_maxsize: default_cache_files_maxsize(),
            cache_read_only: false,
            process_timeout: default_process_timeout(),
            use_include_path: false,
            use_parent_dir: Some("prompt".to_owned()),
            preferred_install: PreferredInstall::Dist,
            store_auths: StoreAuths::Prompt,
            notify_on_install: true,
            discard_changes: DiscardChanges::False,
            optimize_autoloader: false,
            sort_packages: false,
            classmap_authoritative: false,
            apcu_autoloader: false,
            prepend_autoloader: true,
            autoloader_suffix: None,
            lock: true,
            platform_check: PlatformCheck::PhpOnly,
            allow_plugins: AllowPlugins::Bool(true),
            audit: AuditConfig::default(),
            secure_http: true,
            disable_tls: false,
            secure_svn_domains: Vec::new(),
            cafile: None,
            capath: None,
            github_protocols: default_github_protocols(),
            gitlab_protocol: None,
            github_domains: default_github_domains(),
            gitlab_domains: default_gitlab_domains(),
            bitbucket_domains: Vec::new(),
            forgejo_domains: default_forgejo_domains(),
            use_github_api: true,
            github_expose_hostname: true,
            bitbucket_expose_hostname: true,
            http_basic: Vec::new(),
            bearer: Vec::new(),
            github_oauth: Vec::new(),
            gitlab_oauth: Vec::new(),
            gitlab_token: Vec::new(),
            bitbucket_oauth: Vec::new(),
            forgejo_token: Vec::new(),
            platform: Vec::new(),
            archive_format: default_archive_format(),
            archive_dir: default_archive_dir(),
            htaccess_protect: true,
            bin_compat: default_bin_compat(),
            custom_headers: Vec::new(),
            client_certificate: Vec::new(),
            base_dir: None,
            sources: Vec::new(),
        };
        proof {
            reveal(config_view);
            assert(r@.github_oauth =~= Seq::empty());
            assert(r@.gitlab_oauth =~= Seq::empty());
            assert(r@.platform =~= Seq::empty());
            assert(r@.sources =~= Seq::empty());
        }
        r
    }
}

// ---------------------------------------------------------------------------
// Merging
// ---------------------------------------------------------------------------
/// The position of the first entry with the name; the number of entries where there is none.
pub open spec fn source_place(s: Sources, name: Seq<char>) -> int
    decreases s.len(),
{
    if s.len() == 0 || s[0].0 == name {
        0
    } else {
        1 + source_place(s.drop_first(), name)
    }
}

/// The origins with that of a setting: in place where there is one, at the end where not.
pub open spec fn with_source(s: Sources, name: Seq<char>, source: SourceView) -> Sources {
    if source_place(s, name) < s.len() {
        s.update(source_place(s, name), (name, source))
    } else {
        s.push((name, source))
    }
}

/// The texts among the first `n` values.
pub open spec fn texts_among(items: Seq<JsonView>, n: int) -> Seq<Seq<char>>
    decreases n,
{
    if n <= 0 || n > items.len() {
        Seq::empty()
    } else {
        match items[n - 1] {
            JsonView::Text(t) => texts_among(items, n - 1).push(t),
            _ => texts_among(items, n - 1),
        }
    }
}

/// The texts with the first `n` of others that are not among them yet.
pub open spec fn with_new_texts(s: Seq<Seq<char>>, more: Seq<Seq<char>>, n: int) -> Seq<Seq<char>>
    decreases n,
{
    if n <= 0 || n > more.len() {
        s
    } else {
        let t = with_new_texts(s, more, n - 1);
        if t.contains(more[n - 1]) {
            t
        } else {
            t.push(more[n - 1])
        }
    }
}

/// The tokens with those of the first `n` entries that are texts.
pub open spec fn with_tokens(s: Pairs, o: Entries, n: int) -> Pairs
    decreases n,
{
    if n <= 0 || n > o.len() {
        s
    } else {
        match o[n - 1].1 {
            JsonView::Text(t) => with_link(with_tokens(s, o, n - 1), o[n - 1].0, t),
            _ => with_tokens(s, o, n - 1),
        }
    }
}

/// The platform packages with those of the first `n` entries that are texts or `false`.
pub open spec fn with_platform(s: Entries, o: Entries, n: int) -> Entries
    decreases n,
{
    if n <= 0 || n > o.len() {
        s
    } else if o[n - 1].1 is Text || o[n - 1].1 == JsonView::Bool(false) {
        with_entry(with_platform(s, o, n - 1), o[n - 1].0, o[n - 1].1)
    } else {
        with_platform(s, o, n - 1)
    }
}

/// Every value is a truth value.
pub open spec fn all_bools(o: Entries) -> bool {
    forall|i: int| 0 <= i < o.len() ==> (#[trigger] o[i]).1 is Bool
}

/// Which plugins a value lets run, where it says so.
pub open spec fn plugins_in(v: JsonView) -> Option<PluginsView> {
    match v {
        JsonView::Bool(b) => Some(PluginsView::Bool(b)),
        JsonView::Object(o) => if all_bools(o) {
            Some(
                PluginsView::List(
                    o.map_values(
                        |e: (Seq<char>, JsonView)| (e.0, e.1 == JsonView::Bool(true)),
                    ),
                ),
            )
        } else {
            None
        },
        _ => None,
    }
}

/// What becomes of local changes, where a value says so.
pub open spec fn discard_in(v: JsonView) -> Option<DiscardChanges> {
    match v {
        JsonView::Text(t) => DiscardChanges::named(t),
        JsonView::Bool(b) => Some(
            if b {
                DiscardChanges::True
            } else {
                DiscardChanges::False
            },
        ),
        _ => None,
    }
}

/// Whether the platform is checked, where a value says so.
pub open spec fn check_in(v: JsonView) -> Option<PlatformCheck> {
    match v {
        JsonView::Text(t) => PlatformCheck::named(t),
        JsonView::Bool(b) => Some(
            if b {
                PlatformCheck::True
            } else {
                PlatformCheck::False
            },
        ),
        _ => None,
    }
}

/// What a setting of a file does.
pub enum Effect {
    /// The setting is not known.
    Unknown,
    /// The value is of the wrong kind.
    Ignored,
    /// The configuration with the value in force.
    Applied(ConfigView),
}

/// The settings for directories and the timeout.
#[verifier::opaque]
pub open spec fn path_effect(c: ConfigView, key: Seq<char>, value: JsonView) -> Effect {
    if key == "vendor-dir"@ {
        match value {
            JsonView::Text(t) => Effect::Applied(ConfigView { vendor_dir: t, ..c }),
            _ => Effect::Ignored,
        }
    } else if key == "bin-dir"@ {
        match value {
            JsonView::Text(t) => Effect::Applied(ConfigView { bin_dir: t, ..c }),
            _ => Effect::Ignored,
        }
    } else if key == "cache-dir"@ {
        match value {
            JsonView::Text(t) => Effect::Applied(ConfigView { cache_dir: Some(t), ..c }),
            _ => Effect::Ignored,
        }
    } else if key == "data-dir"@ {
        match value {
            JsonView::Text(t) => Effect::Applied(ConfigView { data_dir: Some(t), ..c }),
            _ => Effect::Ignored,
        }
    } else if key == "process-timeout"@ {
        match value {
            JsonView::Number(NumberView::Unsigned(k)) => Effect::Applied(ConfigView { process_timeout: k, ..c }),
            _ => Effect::Ignored,
        }
    } else {
        Effect::Unknown
    }
}

/// The settings that are switches.
#[verifier::opaque]
pub open spec fn switch_effect(c: ConfigView, key: Seq<char>, value: JsonView) -> Effect {
    if key == "use-include-path"@ {
        match value {
            JsonView::Bool(b) => Effect::Applied(ConfigView { use_include_path: b, ..c }),
            _ => Effect::Ignored,
        }
    } else if key == "notify-on-install"@ {
        match value {
            JsonView::Bool(b) => Effect::Applied(ConfigView { notify_on_install: b, ..c }),
            _ => Effect::Ignored,
        }
    } else if key == "optimize-autoloader"@ {
        match value {
            JsonView::Bool(b) => Effect::Applied(ConfigView { optimize_autoloader: b, ..c }),
            _ => Effect::Ignored,
        }
    } else if key == "sort-packages"@ {
        match value {
            JsonView::Bool(b) => Effect::Applied(ConfigView { sort_packages: b, ..c }),
            _ => Effect::Ignored,
        }
    } else if key == "classmap-authoritative"@ {
        match value {
            JsonView::Bool(b) => Effect::Applied(ConfigView { classmap_authoritative: b, ..c }),
            _ => Effect::Ignored,
        }
    } else if key == "apcu-autoloader"@ {
        match value {
            JsonView::Bool(b) => Effect::Applied(ConfigView { apcu_autoloader: b, ..c }),
            _ => Effect::Ignored,
        }
    } else if key == "secure-http"@ {
        match value {
            JsonView::Bool(b) => Effect::Applied(ConfigView { secure_http: b, ..c }),
            _ => Effect::Ignored,
        }
    } else if key == "disable-tls"@ {
        match value {
            JsonView::Bool(b) => Effect::Applied(ConfigView { disable_tls: b, ..c }),
            _ => Effect::Ignored,
        }
    } else if key == "lock"@ {
        match value {
            JsonView::Bool(b) => Effect::Applied(ConfigView { lock: b, ..c }),
            _ => Effect::Ignored,
        }
    } else {
        Effect::Unknown
    }
}

/// The settings with a choice of values.
#[verifier::opaque]
pub open spec fn choice_effect(c: ConfigView, key: Seq<char>, value: JsonView) -> Effect {
    if key == "preferred-install"@ {
        match value {
            JsonView::Text(t) => match PreferredInstall::named(t) {
                Some(x) => Effect::Applied(ConfigView { preferred_install: x, ..c }),
                None => Effect::Ignored,
            },
            _ => Effect::Ignored,
        }
    } else if key == "store-auths"@ {
        match value {
            JsonView::Text(t) => match StoreAuths::named(t) {
                Some(x) => Effect::Applied(ConfigView { store_auths: x, ..c }),
                None => Effect::Ignored,
            },
            _ => Effect::Ignored,
        }
    } else if key == "discard-changes"@ {
        match discard_in(value) {
            Some(x) => Effect::Applied(ConfigView { discard_changes: x, ..c }),
            None => Effect::Ignored,
        }
    } else if key == "platform-check"@ {
        match check_in(value) {
            Some(x) => Effect::Applied(ConfigView { platform_check: x, ..c }),
            None => Effect::Ignored,
        }
    } else if key == "allow-plugins"@ {
        match plugins_in(value) {
            Some(x) => Effect::Applied(ConfigView { allow_plugins: x, ..c }),
            None => Effect::Ignored,
        }
    } else {
        Effect::Unknown
    }
}

/// The settings that are lists or hold entries by name.
#[verifier::opaque]
pub open spec fn list_effect(c: ConfigView, key: Seq<char>, value: JsonView) -> Effect {
    if key == "github-protocols"@ {
        match value {
            JsonView::Array(a) => Effect::Applied(ConfigView {
                github_protocols: texts_among(a, a.len() as int),
                ..c }),
            _ => Effect::Ignored,
        }
    } else if key == "github-domains"@ {
        match value {
            JsonView::Array(a) => {
                let more = texts_among(a, a.len() as int);
                Effect::Applied(ConfigView { github_domains: with_new_texts(c.github_domains, more, more.len() as int), ..c })
            },
            _ => Effect::Ignored,
        }
    } else if key == "gitlab-domains"@ {
        match value {
            JsonView::Array(a) => {
                let more = texts_among(a, a.len() as int);
                Effect::Applied(ConfigView { gitlab_domains: with_new_texts(c.gitlab_domains, more, more.len() as int), ..c })
            },
            _ => Effect::Ignored,
        }
    } else if key == "platform"@ {
        match value {
            JsonView::Object(o) => Effect::Applied(ConfigView {
                platform: with_platform(c.platform, o, o.len() as int),
                ..c }),
            _ => Effect::Ignored,
        }
    } else if key == "github-oauth"@ {
        match value {
            JsonView::Object(o) => Effect::Applied(ConfigView {
                github_oauth: with_tokens(c.github_oauth, o, o.len() as int),
                ..c }),
            _ => Effect::Ignored,
        }
    } else if key == "gitlab-oauth"@ {
        match value {
            JsonView::Object(o) => Effect::Applied(ConfigView {
                gitlab_oauth: with_tokens(c.gitlab_oauth, o, o.len() as int),
                ..c }),
            _ => Effect::Ignored,
        }
    } else {
        Effect::Unknown
    }
}

/// What a setting of a file does.
pub open spec fn effect(c: ConfigView, key: Seq<char>, value: JsonView) -> Effect {
    match path_effect(c, key, value) {
        Effect::Unknown => match switch_effect(c, key, value) {
            Effect::Unknown => match choice_effect(c, key, value) {
                Effect::Unknown => list_effect(c, key, value),
                other => other,
            },
            other => other,
        },
        other => other,
    }
}

/// The setting comes from a source.
pub open spec fn noted(c: ConfigView, key: Seq<char>, source: SourceView) -> ConfigView {
    ConfigView { sources: with_source(c.sources, key, source), ..c }
}

/// The configuration with one setting of a file in force. A value of the wrong kind
/// changes nothing; a setting that is not known changes nothing but the origins.
pub open spec fn merged_value(
    c: ConfigView,
    key: Seq<char>,
    value: JsonView,
    source: SourceView,
) -> ConfigView {
    match effect(c, key, value) {
        Effect::Unknown => noted(c, key, source),
        Effect::Ignored => c,
        Effect::Applied(d) => noted(d, key, source),
    }
}

fn texts_in_list(items: &Vec<Json>) -> (r: Vec<String>)
    ensures
        views(r@) == texts_among(items_view(items@), items@.len() as int),
{
    let ghost all = items_view(items@);
    let mut out: Vec<String> = Vec::new();
    let mut i: usize = 0;
    assert(views(out@) =~= texts_among(all, 0));
    while i < items.len()
        invariant
            i <= items.len(),
            all == items_view(items@),
            views(out@) == texts_among(all, i as int),
        decreases items.len() - i,
    {
        assert(all[i as int] == items@[i as int]@);
        if let Json::Text(t) = &items[i] {
            let one = t.clone();
            proof {
                lemma_views_push(out@, one);
            }
            out.push(one);
        }
        i += 1;
    }
    out
}

fn add_new_texts(v: &mut Vec<String>, more: &Vec<String>)
    ensures
        views(final(v)@) == with_new_texts(views(old(v)@), views(more@), more@.len() as int),
{
    let ghost s = views(v@);
    let ghost m = views(more@);
    let mut i: usize = 0;
    while i < more.len()
        invariant
            i <= more.len(),
            m == views(more@),
            views(v@) == with_new_texts(s, m, i as int),
        decreases more.len() - i,
    {
        let ghost now = views(v@);
        assert(m[i as int] == more@[i as int]@);
        let mut found = false;
        let mut j: usize = 0;
        while j < v.len()
            invariant
                i < more.len(),
                j <= v.len(),
                now == views(v@),
                m == views(more@),
                m[i as int] == more@[i as int]@,
                found == exists|k: int| 0 <= k < j && now[k] == m[i as int],
            decreases v.len() - j,
        {
            assert(now[j as int] == v@[j as int]@);
            if str_equal(v[j].as_str(), more[i].as_str()) {
                found = true;
            }
            j += 1;
        }
        assert(found == now.contains(m[i as int])) by {
            assert(now.len() == v.len());
        }
        if !found {
            let one = more[i].clone();
            proof {
                lemma_views_push(v@, one);
            }
            v.push(one);
        }
        i += 1;
    }
}

fn add_tokens(v: &mut Vec<(String, String)>, entries: &Vec<(String, Json)>)
    ensures
        pairs(final(v)@) == with_tokens(
            pairs(old(v)@),
            entries_view(entries@),
            entries@.len() as int,
        ),
{
    let ghost s = pairs(v@);
    let ghost o = entries_view(entries@);
    let mut i: usize = 0;
    while i < entries.len()
        invariant
            i <= entries.len(),
            o == entries_view(entries@),
            pairs(v@) == with_tokens(s, o, i as int),
        decreases entries.len() - i,
    {
        assert(o[i as int] == (entries@[i as int].0@, entries@[i as int].1@));
        if let Json::Text(t) = &entries[i].1 {
            put_name(v, entries[i].0.clone(), t.clone());
        }
        i += 1;
    }
}

fn add_platform(v: &mut Vec<(String, Json)>, entries: &Vec<(String, Json)>)
    ensures
        entries_view(final(v)@) == with_platform(
            entries_view(old(v)@),
            entries_view(entries@),
            entries@.len() as int,
        ),
{
    let ghost s = entries_view(v@);
    let ghost o = entries_view(entries@);
    let mut i: usize = 0;
    while i < entries.len()
        invariant
            i <= entries.len(),
            o == entries_view(entries@),
            entries_view(v@) == with_platform(s, o, i as int),
        decreases entries.len() - i,
    {
        assert(o[i as int] == (entries@[i as int].0@, entries@[i as int].1@));
        let wanted = match &entries[i].1 {
            Json::Text(_) => true,
            Json::Bool(b) => !*b,
            _ => false,
        };
        if wanted {
            put(v, entries[i].0.as_str(), copy(&entries[i].1));
        }
        i += 1;
    }
}

fn read_plugins(value: &Json) -> (r: Option<AllowPlugins>)
    ensures
        r.is_some() == plugins_in(value@).is_some(),
        r matches Some(p) ==> p@ == plugins_in(value@)->0,
{
    match value {
        Json::Bool(b) => Some(AllowPlugins::Bool(*b)),
        Json::Object(entries) => {
            proof {
                lemma_object_view(*entries);
            }
            let ghost o = entries_view(entries@);
            let ghost f = |e: (Seq<char>, JsonView)| (e.0, e.1 == JsonView::Bool(true));
            let mut out: Vec<(String, bool)> = Vec::new();
            let mut i: usize = 0;
            while i < entries.len()
                invariant
                    i <= entries.len(),
                    o == entries_view(entries@),
                    value@ == JsonView::Object(o),
                    f == (|e: (Seq<char>, JsonView)| (e.0, e.1 == JsonView::Bool(true))),
                    switches(out@) == o.map_values(f).take(i as int),
                    forall|k: int| 0 <= k < i ==> (#[trigger] o[k]).1 is Bool,
                decreases entries.len() - i,
            {
                let ghost before = out@;
                assert(o[i as int] == (entries@[i as int].0@, entries@[i as int].1@));
                match &entries[i].1 {
                    Json::Bool(b) => {
                        out.push((entries[i].0.clone(), *b));
                    },
                    _ => {
                        assert(!(o[i as int].1 is Bool));
                        return None;
                    },
                }
                assert(switches(out@) =~= switches(before).push(f(o[i as int])));
                i += 1;
                assert(switches(out@) =~= o.map_values(f).take(i as int));
            }
            assert(switches(out@) =~= o.map_values(f));
            Some(AllowPlugins::List(out))
        },
        _ => None,
    }
}

/// The source of a setting, as a copy.
fn copy_source(s: &ConfigSource) -> (r: ConfigSource)
    ensures
        r@ == s@,
{
    match s {
        ConfigSource::Default => ConfigSource::Default,
        ConfigSource::Global => ConfigSource::Global,
        ConfigSource::Project => ConfigSource::Project,
        ConfigSource::Environment(v) => ConfigSource::Environment(v.clone()),
    }
}

fn put_source(v: &mut Vec<(String, ConfigSource)>, name: &str, source: ConfigSource)
    ensures
        sources_view(final(v)@) == with_source(sources_view(old(v)@), name@, source@),
{
    let ghost s = sources_view(v@);
    let at: usize = find_source(v, name);
    if at < v.len() {
        v[at] = (name.to_owned(), source);
    } else {
        v.push((name.to_owned(), source));
    }
    assert(sources_view(v@) =~= with_source(s, name@, source@));
}

fn find_source(v: &Vec<(String, ConfigSource)>, name: &str) -> (r: usize)
    ensures
        r == source_place(sources_view(v@), name@),
        r <= v.len(),
{
    let ghost s = sources_view(v@);
    let mut i: usize = 0;
    assert(s.skip(0) =~= s);
    while i < v.len() && !str_equal(v[i].0.as_str(), name)
        invariant
            i <= v.len(),
            s == sources_view(v@),
            source_place(s, name@) == i + source_place(s.skip(i as int), name@),
        decreases v.len() - i,
    {
        proof {
            assert(s.skip(i as int)[0].0 == v@[i as int].0@);
            assert(s.skip(i as int).drop_first() =~= s.skip(i + 1));
        }
        i += 1;
    }
    proof {
        if i < v.len() {
            assert(s.skip(i as int)[0].0 == v@[i as int].0@);
        }
    }
    i
}

impl Config {
    fn set_vendor_dir(&mut self, value: String)
        ensures
            final(self)@ == (ConfigView { vendor_dir: value@, ..old(self)@ }),
            rest_unchanged(*old(self), *final(self)),
    {
        self.vendor_dir = value;
        proof {
            reveal(config_view);
            reveal(rest_unchanged);
        }
    }

    fn set_bin_dir(&mut self, value: String)
        ensures
            final(self)@ == (ConfigView { bin_dir: value@, ..old(self)@ }),
            rest_unchanged(*old(self), *final(self)),
    {
        self.bin_dir = value;
        proof {
            reveal(config_view);
            reveal(rest_unchanged);
        }
    }

    fn set_cache_dir(&mut self, value: Option<String>)
        ensures
            final(self)@ == (ConfigView { cache_dir: opt(value), ..old(self)@ }),
            rest_unchanged(*old(self), *final(self)),
    {
        self.cache_dir = value;
        proof {
            reveal(config_view);
            reveal(rest_unchanged);
        }
    }

    fn set_data_dir(&mut self, value: Option<String>)
        ensures
            final(self)@ == (ConfigView { data_dir: opt(value), ..old(self)@ }),
            rest_unchanged(*old(self), *final(self)),
    {
        self.data_dir = value;
        proof {
            reveal(config_view);
            reveal(rest_unchanged);
        }
    }

    fn set_home_dir(&mut self, value: Option<String>)
        ensures
            final(self)@ == (ConfigView { home_dir: opt(value), ..old(self)@ }),
            rest_unchanged(*old(self), *final(self)),
    {
        self.home_dir = value;
        proof {
            reveal(config_view);
            reveal(rest_unchanged);
        }
    }

    fn set_cache_files_dir(&mut self, value: Option<String>)
        ensures
            final(self)@ == (ConfigView { cache_files_dir: opt(value), ..old(self)@ }),
            rest_unchanged(*old(self), *final(self)),
    {
        self.cache_files_dir = value;
        proof {
            reveal(config_view);
            reveal(rest_unchanged);
        }
    }

    fn set_cache_repo_dir(&mut self, value: Option<String>)
        ensures
            final(self)@ == (ConfigView { cache_repo_dir: opt(value), ..old(self)@ }),
            rest_unchanged(*old(self), *final(self)),
    {
        self.cache_repo_dir = value;
        proof {
            reveal(config_view);
            reveal(rest_unchanged);
        }
    }

    fn set_cache_vcs_dir(&mut self, value: Option<String>)
        ensures
            final(self)@ == (ConfigView { cache_vcs_dir: opt(value), ..old(self)@ }),
            rest_unchanged(*old(self), *final(self)),
    {
        self.cache_vcs_dir = value;
        proof {
            reveal(config_view);
            reveal(rest_unchanged);
        }
    }

    fn set_cache_read_only(&mut self, value: bool)
        ensures
            final(self)@ == (ConfigView { cache_read_only: value, ..old(self)@ }),
            rest_unchanged(*old(self), *final(self)),
    {
        self.cache_read_only = value;
        proof {
            reveal(config_view);
            reveal(rest_unchanged);
        }
    }

    fn set_process_timeout(&mut self, value: u64)
        ensures
            final(self)@ == (ConfigView { process_timeout: value, ..old(self)@ }),
            rest_unchanged(*old(self), *final(self)),
    {
        self.process_timeout = value;
        proof {
            reveal(config_view);
            reveal(rest_unchanged);
        }
    }

    fn set_use_include_path(&mut self, value: bool)
        ensures
            final(self)@ == (ConfigView { use_include_path: value, ..old(self)@ }),
            rest_unchanged(*old(self), *final(self)),
    {
        self.use_include_path = value;
        proof {
            reveal(config_view);
            reveal(rest_unchanged);
        }
    }

    fn set_preferred_install(&mut self, value: PreferredInstall)
        ensures
            final(self)@ == (ConfigView { preferred_install: value, ..old(self)@ }),
            rest_unchanged(*old(self), *final(self)),
    {
        self.preferred_install = value;
        proof {
            reveal(config_view);
            reveal(rest_unchanged);
        }
    }

    fn set_store_auths(&mut self, value: StoreAuths)
        ensures
            final(self)@ == (ConfigView { store_auths: value, ..old(self)@ }),
            rest_unchanged(*old(self), *final(self)),
    {
        self.store_auths = value;
        proof {
            reveal(config_view);
            reveal(rest_unchanged);
        }
    }

    fn set_notify_on_install(&mut self, value: bool)
        ensures
            final(self)@ == (ConfigView { notify_on_install: value, ..old(self)@ }),
            rest_unchanged(*old(self), *final(self)),
    {
        self.notify_on_install = value;
        proof {
            reveal(config_view);
            reveal(rest_unchanged);
        }
    }

    fn set_discard_changes(&mut self, value: DiscardChanges)
        ensures
            final(self)@ == (ConfigView { discard_changes: value, ..old(self)@ }),
            rest_unchanged(*old(self), *final(self)),
    {
        self.discard_changes = value;
        proof {
            reveal(config_view);
            reveal(rest_unchanged);
        }
    }

    fn set_optimize_autoloader(&mut self, value: bool)
        ensures
            final(self)@ == (ConfigView { optimize_autoloader: value, ..old(self)@ }),
            rest_unchanged(*old(self), *final(self)),
    {
        self.optimize_autoloader = value;
        proof {
            reveal(config_view);
            reveal(rest_unchanged);
        }
    }

    fn set_sort_packages(&mut self, value: bool)
        ensures
            final(self)@ == (ConfigView { sort_packages: value, ..old(self)@ }),
            rest_unchanged(*old(self), *final(self)),
    {
        self.sort_packages = value;
        proof {
            reveal(config_view);
            reveal(rest_unchanged);
        }
    }

    fn set_classmap_authoritative(&mut self, value: bool)
        ensures
            final(self)@ == (ConfigView { classmap_authoritative: value, ..old(self)@ }),
            rest_unchanged(*old(self), *final(self)),
    {
        self.classmap_authoritative = value;
        proof {
            reveal(config_view);
            reveal(rest_unchanged);
        }
    }

    fn set_apcu_autoloader(&mut self, value: bool)
        ensures
            final(self)@ == (ConfigView { apcu_autoloader: value, ..old(self)@ }),
            rest_unchanged(*old(self), *final(self)),
    {
        self.apcu_autoloader = value;
        proof {
            reveal(config_view);
            reveal(rest_unchanged);
        }
    }

    fn set_secure_http(&mut self, value: bool)
        ensures
            final(self)@ == (ConfigView { secure_http: value, ..old(self)@ }),
            rest_unchanged(*old(self), *final(self)),
    {
        self.secure_http = value;
        proof {
            reveal(config_view);
            reveal(rest_unchanged);
        }
    }

    fn set_disable_tls(&mut self, value: bool)
        ensures
            final(self)@ == (ConfigView { disable_tls: value, ..old(self)@ }),
            rest_unchanged(*old(self), *final(self)),
    {
        self.disable_tls = value;
        proof {
            reveal(config_view);
            reveal(rest_unchanged);
        }
    }

    fn set_lock(&mut self, value: bool)
        ensures
            final(self)@ == (ConfigView { lock: value, ..old(self)@ }),
            rest_unchanged(*old(self), *final(self)),
    {
        self.lock = value;
        proof {
            reveal(config_view);
            reveal(rest_unchanged);
        }
    }

    fn set_platform_check(&mut self, value: PlatformCheck)
        ensures
            final(self)@ == (ConfigView { platform_check: value, ..old(self)@ }),
            rest_unchanged(*old(self), *final(self)),
    {
        self.platform_check = value;
        proof {
            reveal(config_view);
            reveal(rest_unchanged);
        }
    }

    fn set_allow_plugins(&mut self, value: AllowPlugins)
        ensures
            final(self)@ == (ConfigView { allow_plugins: value@, ..old(self)@ }),
            rest_unchanged(*old(self), *final(self)),
    {
        self.allow_plugins = value;
        proof {
            reveal(config_view);
            reveal(rest_unchanged);
        }
    }

    fn set_github_protocols(&mut self, value: Vec<String>)
        ensures
            final(self)@ == (ConfigView { github_protocols: views(value@), ..old(self)@ }),
            rest_unchanged(*old(self), *final(self)),
    {
        self.github_protocols = value;
        proof {
            reveal(config_view);
            reveal(rest_unchanged);
        }
    }

    fn set_htaccess_protect(&mut self, value: bool)
        ensures
            final(self)@ == (ConfigView { htaccess_protect: value, ..old(self)@ }),
            rest_unchanged(*old(self), *final(self)),
    {
        self.htaccess_protect = value;
        proof {
            reveal(config_view);
            reveal(rest_unchanged);
        }
    }

    fn add_github_domains(&mut self, more: &Vec<String>)
        ensures
            final(self)@ == (ConfigView {
                github_domains: with_new_texts(old(self)@.github_domains, views(more@), more@.len() as int),
                ..old(self)@
            }),
            rest_unchanged(*old(self), *final(self)),
    {
        add_new_texts(&mut self.github_domains, more);
        proof {
            reveal(config_view);
            reveal(rest_unchanged);
        }
    }

    fn add_gitlab_domains(&mut self, more: &Vec<String>)
        ensures
            final(self)@ == (ConfigView {
                gitlab_domains: with_new_texts(old(self)@.gitlab_domains, views(more@), more@.len() as int),
                ..old(self)@
            }),
            rest_unchanged(*old(self), *final(self)),
    {
        add_new_texts(&mut self.gitlab_domains, more);
        proof {
            reveal(config_view);
            reveal(rest_unchanged);
        }
    }

    fn add_github_oauth(&mut self, entries: &Vec<(String, Json)>)
        ensures
            final(self)@ == (ConfigView {
                github_oauth: with_tokens(
                    old(self)@.github_oauth,
                    entries_view(entries@),
                    entries@.len() as int,
                ),
                ..old(self)@
            }),
            rest_unchanged(*old(self), *final(self)),
    {
        add_tokens(&mut self.github_oauth, entries);
        proof {
            reveal(config_view);
            reveal(rest_unchanged);
        }
    }

    fn add_gitlab_oauth(&mut self, entries: &Vec<(String, Json)>)
        ensures
            final(self)@ == (ConfigView {
                gitlab_oauth: with_tokens(
                    old(self)@.gitlab_oauth,
                    entries_view(entries@),
                    entries@.len() as int,
                ),
                ..old(self)@
            }),
            rest_unchanged(*old(self), *final(self)),
    {
        add_tokens(&mut self.gitlab_oauth, entries);
        proof {
            reveal(config_view);
            reveal(rest_unchanged);
        }
    }

    fn add_platform(&mut self, entries: &Vec<(String, Json)>)
        ensures
            final(self)@ == (ConfigView {
                platform: with_platform(
                    old(self)@.platform,
                    entries_view(entries@),
                    entries@.len() as int,
                ),
                ..old(self)@
            }),
            rest_unchanged(*old(self), *final(self)),
    {
        add_platform(&mut self.platform, entries);
        proof {
            reveal(config_view);
            reveal(rest_unchanged);
        }
    }

    fn note(&mut self, key: &str, source: ConfigSource)
        ensures
            final(self)@ == noted(old(self)@, key@, source@),
            rest_unchanged(*old(self), *final(self)),
    {
        put_source(&mut self.sources, key, source);
        proof {
            reveal(config_view);
            reveal(rest_unchanged);
        }
    }
}

proof fn lemma_rest_stays_default(a: Config, b: Config)
    requires
        rest_is_default(a),
        rest_unchanged(a, b),
    ensures
        rest_is_default(b),
{
    reveal(rest_unchanged);
}

proof fn lemma_rest_unchanged(a: Config, b: Config, c: Config)
    ensures
        rest_unchanged(a, a),
        rest_unchanged(a, b) && rest_unchanged(b, c) ==> rest_unchanged(a, c),
{
    reveal(rest_unchanged);
}

/// What putting a setting in force came to.
#[derive(Debug, Clone, Copy, PartialEq, Eq, Structural)]
pub enum Merged {
    Unknown,
    Ignored,
    Applied,
}

/// The configuration changed as the setting says.
pub open spec fn took_effect(e: Effect, before: Config, now: Config, m: Merged) -> bool {
    &&& rest_unchanged(before, now)
    &&& match e {
        Effect::Unknown => m == Merged::Unknown && now@ == before@,
        Effect::Ignored => m == Merged::Ignored && now@ == before@,
        Effect::Applied(d) => m == Merged::Applied && now@ == d,
    }
}

impl Config {
    fn merge_path(&mut self, key: &str, value: &Json) -> (r: Merged)
        ensures
            took_effect(path_effect(old(self)@, key@, value@), *old(self), *final(self), r),
    {
        reveal(path_effect);
        proof {
            lemma_rest_unchanged(*self, *self, *self);
        }
        if str_equal(key, "vendor-dir") {
            match value {
                Json::Text(t) => {
                    self.set_vendor_dir(t.clone());
                    Merged::Applied
                },
                _ => Merged::Ignored,
            }
        } else if str_equal(key, "bin-dir") {
            match value {
                Json::Text(t) => {
                    self.set_bin_dir(t.clone());
                    Merged::Applied
                },
                _ => Merged::Ignored,
            }
        } else if str_equal(key, "cache-dir") {
            match value {
                Json::Text(t) => {
                    self.set_cache_dir(Some(t.clone()));
                    Merged::Applied
                },
                _ => Merged::Ignored,
            }
        } else if str_equal(key, "data-dir") {
            match value {
                Json::Text(t) => {
                    self.set_data_dir(Some(t.clone()));
                    Merged::Applied
                },
                _ => Merged::Ignored,
            }
        } else if str_equal(key, "process-timeout") {
            match value {
                Json::Number(Number::Unsigned(n)) => {
                    self.set_process_timeout(*n);
                    Merged::Applied
                },
                _ => Merged::Ignored,
            }
        } else {
            Merged::Unknown
        }
    }

    fn merge_switch(&mut self, key: &str, value: &Json) -> (r: Merged)
        ensures
            took_effect(switch_effect(old(self)@, key@, value@), *old(self), *final(self), r),
    {
        reveal(switch_effect);
        proof {
            lemma_rest_unchanged(*self, *self, *self);
        }
        if str_equal(key, "use-include-path") {
            match value {
                Json::Bool(b) => {
                    self.set_use_include_path(*b);
                    Merged::Applied
                },
                _ => Merged::Ignored,
            }
        } else if str_equal(key, "notify-on-install") {
            match value {
                Json::Bool(b) => {
                    self.set_notify_on_install(*b);
                    Merged::Applied
                },
                _ => Merged::Ignored,
            }
        } else if str_equal(key, "optimize-autoloader") {
            match value {
                Json::Bool(b) => {
                    self.set_optimize_autoloader(*b);
                    Merged::Applied
                },
                _ => Merged::Ignored,
            }
        } else if str_equal(key, "sort-packages") {
            match value {
                Json::Bool(b) => {
                    self.set_sort_packages(*b);
                    Merged::Applied
                },
                _ => Merged::Ignored,
            }
        } else if str_equal(key, "classmap-authoritative") {
            match value {
                Json::Bool(b) => {
                    self.set_classmap_authoritative(*b);
                    Merged::Applied
                },
                _ => Merged::Ignored,
            }
        } else if str_equal(key, "apcu-autoloader") {
            match value {
                Json::Bool(b) => {
                    self.set_apcu_autoloader(*b);
                    Merged::Applied
                },
                _ => Merged::Ignored,
            }
        } else if str_equal(key, "secure-http") {
            match value {
                Json::Bool(b) => {
                    self.set_secure_http(*b);
                    Merged::Applied
                },
                _ => Merged::Ignored,
            }
        } else if str_equal(key, "disable-tls") {
            match value {
                Json::Bool(b) => {
                    self.set_disable_tls(*b);
                    Merged::Applied
                },
                _ => Merged::Ignored,
            }
        } else if str_equal(key, "lock") {
            match value {
                Json::Bool(b) => {
                    self.set_lock(*b);
                    Merged::Applied
                },
                _ => Merged::Ignored,
            }
        } else {
            Merged::Unknown
        }
    }

    fn merge_choice(&mut self, key: &str, value: &Json) -> (r: Merged)
        ensures
            took_effect(choice_effect(old(self)@, key@, value@), *old(self), *final(self), r),
    {
        reveal(choice_effect);
        proof {
            lemma_rest_unchanged(*self, *self, *self);
        }
        if str_equal(key, "preferred-install") {
            match value {
                Json::Text(t) => match PreferredInstall::from_str(t.as_str()) {
                    Some(x) => {
                        self.set_preferred_install(x);
                        Merged::Applied
                    },
                    None => Merged::Ignored,
                },
                _ => Merged::Ignored,
            }
        } else if str_equal(key, "store-auths") {
            match value {
                Json::Text(t) => match StoreAuths::from_str(t.as_str()) {
                    Some(x) => {
                        self.set_store_auths(x);
                        Merged::Applied
                    },
                    None => Merged::Ignored,
                },
                _ => Merged::Ignored,
            }
        } else if str_equal(key, "discard-changes") {
            let read = match value {
                Json::Text(t) => DiscardChanges::from_str(t.as_str()),
                Json::Bool(b) => Some(
                    if *b {
                        DiscardChanges::True
                    } else {
                        DiscardChanges::False
                    },
                ),
                _ => None,
            };
            match read {
                Some(x) => {
                    self.set_discard_changes(x);
                    Merged::Applied
                },
                None => Merged::Ignored,
            }
        } else if str_equal(key, "platform-check") {
            let read = match value {
                Json::Text(t) => PlatformCheck::from_str(t.as_str()),
                Json::Bool(b) => Some(
                    if *b {
                        PlatformCheck::True
                    } else {
                        PlatformCheck::False
                    },
                ),
                _ => None,
            };
            match read {
                Some(x) => {
                    self.set_platform_check(x);
                    Merged::Applied
                },
                None => Merged::Ignored,
            }
        } else if str_equal(key, "allow-plugins") {
            match read_plugins(value) {
                Some(x) => {
                    self.set_allow_plugins(x);
                    Merged::Applied
                },
                None => Merged::Ignored,
            }
        } else {
            Merged::Unknown
        }
    }

    fn merge_list(&mut self, key: &str, value: &Json) -> (r: Merged)
        ensures
            took_effect(list_effect(old(self)@, key@, value@), *old(self), *final(self), r),
    {
        reveal(list_effect);
        proof {
            lemma_rest_unchanged(*self, *self, *self);
        }
        broadcast use {lemma_array_view, lemma_object_view};

        if str_equal(key, "github-protocols") {
            match value {
                Json::Array(items) => {
                    assert(items_view(items@).len() == items@.len());
                    self.set_github_protocols(texts_in_list(items));
                    Merged::Applied
                },
                _ => Merged::Ignored,
            }
        } else if str_equal(key, "github-domains") {
            match value {
                Json::Array(items) => {
                    assert(items_view(items@).len() == items@.len());
                    let more = texts_in_list(items);
                    assert(views(more@).len() == more@.len());
                    self.add_github_domains(&more);
                    Merged::Applied
                },
                _ => Merged::Ignored,
            }
        } else if str_equal(key, "gitlab-domains") {
            match value {
                Json::Array(items) => {
                    assert(items_view(items@).len() == items@.len());
                    let more = texts_in_list(items);
                    assert(views(more@).len() == more@.len());
                    self.add_gitlab_domains(&more);
                    Merged::Applied
                },
                _ => Merged::Ignored,
            }
        } else if str_equal(key, "platform") {
            match value {
                Json::Object(entries) => {
                    assert(entries_view(entries@).len() == entries@.len());
                    self.add_platform(entries);
                    Merged::Applied
                },
                _ => Merged::Ignored,
            }
        } else if str_equal(key, "github-oauth") {
            match value {
                Json::Object(entries) => {
                    assert(entries_view(entries@).len() == entries@.len());
                    self.add_github_oauth(entries);
                    Merged::Applied
                },
                _ => Merged::Ignored,
            }
        } else if str_equal(key, "gitlab-oauth") {
            match value {
                Json::Object(entries) => {
                    assert(entries_view(entries@).len() == entries@.len());
                    self.add_gitlab_oauth(entries);
                    Merged::Applied
                },
                _ => Merged::Ignored,
            }
        } else {
            Merged::Unknown
        }
    }

    /// Puts one setting of a file in force.
    pub fn merge_config_value(&mut self, key: &str, value: &Json, source: &ConfigSource)
        ensures
            final(self)@ == merged_value(old(self)@, key@, value@, source@),
            rest_unchanged(*old(self), *final(self)),
    {
        let ghost start = *self;
        let mut done = self.merge_path(key, value);
        let ghost a = *self;
        if let Merged::Unknown = done {
            done = self.merge_switch(key, value);
        }
        let ghost b = *self;
        if let Merged::Unknown = done {
            done = self.merge_choice(key, value);
        }
        let ghost c = *self;
        if let Merged::Unknown = done {
            done = self.merge_list(key, value);
        }
        let ghost d = *self;
        proof {
            lemma_rest_unchanged(a, a, a);
            lemma_rest_unchanged(b, b, b);
            lemma_rest_unchanged(c, c, c);
            lemma_rest_unchanged(start, a, b);
            lemma_rest_unchanged(start, b, c);
            lemma_rest_unchanged(start, c, d);
        }
        if let Merged::Ignored = done {
            return;
        }
        self.note(key, copy_source(source));
        proof {
            lemma_rest_unchanged(start, d, *self);
        }
    }
}


// ---------------------------------------------------------------------------
// The environment
// ---------------------------------------------------------------------------
/// The settings that the environment overrides, where their variables are set.
#[derive(Debug, Default)]
pub struct EnvironmentOverrides {
    pub process_timeout: Option<u64>,
    pub cache_dir: Option<String>,
    pub vendor_dir: Option<String>,
    pub bin_dir: Option<String>,
    pub discard_changes: Option<String>,
    pub cache_read_only: Option<bool>,
    pub htaccess_protect: Option<bool>,
}

/// The setting comes from a variable.
pub open spec fn from_variable(c: ConfigView, key: Seq<char>, variable: Seq<char>) -> ConfigView {
    noted(c, key, SourceView::Environment(variable))
}

/// The configuration with `COMPOSER_PROCESS_TIMEOUT` in force, where it is set.
pub open spec fn over_timeout(c: ConfigView, v: Option<u64>) -> ConfigView {
    match v {
        Some(n) => from_variable(ConfigView { process_timeout: n, ..c }, "process-timeout"@, "COMPOSER_PROCESS_TIMEOUT"@),
        None => c,
    }
}

/// The configuration with `COMPOSER_CACHE_DIR` in force, where it is set.
pub open spec fn over_cache(c: ConfigView, v: Option<String>) -> ConfigView {
    match v {
        Some(t) => from_variable(ConfigView { cache_dir: Some(t@), ..c }, "cache-dir"@, "COMPOSER_CACHE_DIR"@),
        None => c,
    }
}

/// The configuration with `COMPOSER_VENDOR_DIR` in force, where it is set.
pub open spec fn over_vendor(c: ConfigView, v: Option<String>) -> ConfigView {
    match v {
        Some(t) => from_variable(ConfigView { vendor_dir: t@, ..c }, "vendor-dir"@, "COMPOSER_VENDOR_DIR"@),
        None => c,
    }
}

/// The configuration with `COMPOSER_BIN_DIR` in force, where it is set.
pub open spec fn over_bin(c: ConfigView, v: Option<String>) -> ConfigView {
    match v {
        Some(t) => from_variable(ConfigView { bin_dir: t@, ..c }, "bin-dir"@, "COMPOSER_BIN_DIR"@),
        None => c,
    }
}

/// The configuration with `COMPOSER_CACHE_READ_ONLY` in force, where it is set.
pub open spec fn over_read_only(c: ConfigView, v: Option<bool>) -> ConfigView {
    match v {
        Some(b) => from_variable(ConfigView { cache_read_only: b, ..c }, "cache-read-only"@, "COMPOSER_CACHE_READ_ONLY"@),
        None => c,
    }
}

/// The configuration with `COMPOSER_HTACCESS_PROTECT` in force, where it is set.
pub open spec fn over_htaccess(c: ConfigView, v: Option<bool>) -> ConfigView {
    match v {
        Some(b) => from_variable(ConfigView { htaccess_protect: b, ..c }, "htaccess-protect"@, "COMPOSER_HTACCESS_PROTECT"@),
        None => c,
    }
}

/// The configuration with `COMPOSER_DISCARD_CHANGES` in force, where it is set to a
/// word that is known.
pub open spec fn over_discard(c: ConfigView, v: Option<String>) -> ConfigView {
    match v {
        Some(t) => match DiscardChanges::named(t@) {
            Some(d) => from_variable(
                ConfigView { discard_changes: d, ..c },
                "discard-changes"@,
                "COMPOSER_DISCARD_CHANGES"@,
            ),
            None => c,
        },
        None => c,
    }
}

/// The configuration with the environment in force.
pub open spec fn overridden(c: ConfigView, e: EnvironmentOverrides) -> ConfigView {
    let c = over_timeout(c, e.process_timeout);
    let c = over_cache(c, e.cache_dir);
    let c = over_vendor(c, e.vendor_dir);
    let c = over_bin(c, e.bin_dir);
    let c = over_discard(c, e.discard_changes);
    let c = over_read_only(c, e.cache_read_only);
    over_htaccess(c, e.htaccess_protect)
}

/// The first of two that is there.
pub open spec fn or_else(a: Option<Seq<char>>, b: Seq<char>) -> Option<Seq<char>> {
    match a {
        Some(t) => Some(t),
        None => Some(b),
    }
}

/// The configuration with the directories filled in that nothing configured, given
/// the home directory and the cache directory of the user.
pub open spec fn completed(c: ConfigView, home: Seq<char>, cache: Seq<char>) -> ConfigView {
    let home_dir = or_else(c.home_dir, home);
    let cache_dir = or_else(c.cache_dir, cache);
    ConfigView {
        home_dir,
        cache_dir,
        data_dir: or_else(c.data_dir, home_dir->0),
        cache_files_dir: or_else(c.cache_files_dir, joined_path(cache_dir->0, "files"@)),
        cache_repo_dir: or_else(c.cache_repo_dir, joined_path(cache_dir->0, "repo"@)),
        cache_vcs_dir: or_else(c.cache_vcs_dir, joined_path(cache_dir->0, "vcs"@)),
        bin_dir: replaced(c.bin_dir, "{$vendor-dir}"@, c.vendor_dir),
        ..c
    }
}

/// The configuration with the first `n` settings of a file in force.
pub open spec fn all_merged(c: ConfigView, o: Entries, n: int, source: SourceView) -> ConfigView
    decreases n,
{
    if n <= 0 || n > o.len() {
        c
    } else {
        merged_value(all_merged(c, o, n - 1, source), o[n - 1].0, o[n - 1].1, source)
    }
}

/// The settings whose origin is always known.
pub open spec fn known_keys() -> Seq<Seq<char>> {
    seq![
        "vendor-dir"@,
        "bin-dir"@,
        "cache-dir"@,
        "data-dir"@,
        "process-timeout"@,
        "use-include-path"@,
        "preferred-install"@,
        "store-auths"@,
        "notify-on-install"@,
        "discard-changes"@,
        "optimize-autoloader"@,
        "sort-packages"@,
        "classmap-authoritative"@,
        "apcu-autoloader"@,
        "secure-http"@,
        "disable-tls"@,
        "lock"@,
        "platform-check"@,
        "allow-plugins"@,
        "github-protocols"@,
        "github-domains"@,
        "gitlab-domains"@,
    ]
}

/// The first `n` of the settings come from the defaults.
pub open spec fn from_defaults(c: ConfigView, n: int) -> ConfigView
    decreases n,
{
    if n <= 0 || n > known_keys().len() {
        c
    } else {
        noted(from_defaults(c, n - 1), known_keys()[n - 1], SourceView::Default)
    }
}

/// The settings of a file, where there is one.
pub open spec fn file_merged(c: ConfigView, file: Option<Vec<(String, Json)>>, source: SourceView)
    -> ConfigView {
    match file {
        Some(v) => all_merged(c, entries_view(v@), v@.len() as int, source),
        None => c,
    }
}

/// The configuration for a project: the defaults, the global file, the file of the
/// project and the environment, each over the one before.
pub open spec fn built(
    base_dir: Option<Seq<char>>,
    global: Option<Vec<(String, Json)>>,
    project: Option<Vec<(String, Json)>>,
    environment: Option<EnvironmentOverrides>,
    home: Seq<char>,
    cache: Seq<char>,
) -> ConfigView {
    let c = from_defaults(
        ConfigView { base_dir, ..default_config() },
        known_keys().len() as int,
    );
    let c = file_merged(c, global, SourceView::Global);
    let c = file_merged(c, project, SourceView::Project);
    let c = match environment {
        Some(e) => overridden(c, e),
        None => c,
    };
    completed(c, home, cache)
}

/// The settings whose origin is always known.
pub fn config_keys() -> (r: Vec<&'static str>)
    ensures
        crate::text::str_views(r@) == known_keys(),
{
    let mut out: Vec<&'static str> = Vec::new();
    out.push("vendor-dir");
    out.push("bin-dir");
    out.push("cache-dir");
    out.push("data-dir");
    out.push("process-timeout");
    out.push("use-include-path");
    out.push("preferred-install");
    out.push("store-auths");
    out.push("notify-on-install");
    out.push("discard-changes");
    out.push("optimize-autoloader");
    out.push("sort-packages");
    out.push("classmap-authoritative");
    out.push("apcu-autoloader");
    out.push("secure-http");
    out.push("disable-tls");
    out.push("lock");
    out.push("platform-check");
    out.push("allow-plugins");
    out.push("github-protocols");
    out.push("github-domains");
    out.push("gitlab-domains");
    assert(crate::text::str_views(out@) =~= known_keys());
    out
}

/// A path seen from the directory of the project, where that is known.
pub open spec fn resolved(base_dir: Option<Seq<char>>, path: Seq<char>) -> Seq<char> {
    match base_dir {
        Some(base) => joined_path(base, path),
        None => path,
    }
}

impl Config {
    /// The configuration where nothing is configured.
    pub fn new() -> (r: Config)
        ensures
            r@ == default_config(),
            rest_is_default(r),
    {
        Config::default()
    }

    /// The configuration where nothing is configured, for a project.
    pub fn with_base_dir(base_dir: &str) -> (r: Config)
        ensures
            r@ == (ConfigView { base_dir: Some(base_dir@), ..default_config() }),
            rest_is_default(r),
    {
        let mut r = Config::default();
        let ghost first = r;
        r.set_base_dir(base_dir);
        proof {
            lemma_rest_stays_default(first, r);
        }
        r
    }

    /// Sets the directory of the project.
    pub fn set_base_dir(&mut self, base_dir: &str)
        ensures
            final(self)@ == (ConfigView { base_dir: Some(base_dir@), ..old(self)@ }),
            rest_unchanged(*old(self), *final(self)),
    {
        self.base_dir = Some(base_dir.to_owned());
        proof {
            reveal(config_view);
            reveal(rest_unchanged);
        }
    }

    /// The directory of the project.
    pub fn base_dir(&self) -> (r: Option<&str>)
        ensures
            r.is_some() == self@.base_dir.is_some(),
            r matches Some(d) ==> d@ == self@.base_dir->0,
    {
        proof {
            reveal(config_view);
        }
        match &self.base_dir {
            Some(d) => Some(d.as_str()),
            None => None,
        }
    }

    /// Where the value of a setting comes from.
    pub fn get_source(&self, key: &str) -> (r: Option<&ConfigSource>)
        ensures
            r.is_some() == (source_place(self@.sources, key@) < self@.sources.len()),
            r matches Some(s) ==> s@ == self@.sources[source_place(self@.sources, key@)].1,
    {
        proof {
            reveal(config_view);
        }
        let at: usize = find_source(&self.sources, key);
        if at < self.sources.len() {
            Some(&self.sources[at].1)
        } else {
            None
        }
    }

    /// A path seen from the directory of the project.
    pub fn resolve_path(&self, path: &str) -> (r: String)
        ensures
            r@ == resolved(self@.base_dir, path@),
    {
        proof {
            reveal(config_view);
        }
        match &self.base_dir {
            Some(base) => join_path(base.as_str(), path),
            None => path.to_owned(),
        }
    }

    /// Where packages are installed.
    pub fn get_vendor_dir(&self) -> (r: String)
        ensures
            r@ == resolved(self@.base_dir, self@.vendor_dir),
    {
        proof {
            reveal(config_view);
        }
        self.resolve_path(self.vendor_dir.as_str())
    }

    /// Where binaries are linked.
    pub fn get_bin_dir(&self) -> (r: String)
        ensures
            r@ == resolved(self@.base_dir, self@.bin_dir),
    {
        proof {
            reveal(config_view);
        }
        self.resolve_path(self.bin_dir.as_str())
    }

    /// Where data is cached; `user_cache` where nothing is configured.
    pub fn get_cache_dir(&self, user_cache: &str) -> (r: String)
        ensures
            r@ == match self@.cache_dir {
                Some(d) => resolved(self@.base_dir, d),
                None => user_cache@,
            },
    {
        proof {
            reveal(config_view);
        }
        match &self.cache_dir {
            Some(d) => self.resolve_path(d.as_str()),
            None => user_cache.to_owned(),
        }
    }

    /// Where data is kept; `home` where nothing is configured.
    pub fn get_data_dir(&self, home: &str) -> (r: String)
        ensures
            r@ == match self@.data_dir {
                Some(d) => resolved(self@.base_dir, d),
                None => home@,
            },
    {
        proof {
            reveal(config_view);
        }
        match &self.data_dir {
            Some(d) => self.resolve_path(d.as_str()),
            None => home.to_owned(),
        }
    }

    /// Puts the settings of a file in force.
    pub fn merge_raw_config(&mut self, raw: &Option<Vec<(String, Json)>>, source: &ConfigSource)
        ensures
            final(self)@ == file_merged(old(self)@, *raw, source@),
            rest_unchanged(*old(self), *final(self)),
    {
        let ghost start = *self;
        proof {
            lemma_rest_unchanged(start, start, start);
        }
        if let Some(v) = raw {
            let ghost o = entries_view(v@);
            let mut i: usize = 0;
            while i < v.len()
                invariant
                    i <= v.len(),
                    o == entries_view(v@),
                    self@ == all_merged(start@, o, i as int, source@),
                    rest_unchanged(start, *self),
                decreases v.len() - i,
            {
                let ghost before = *self;
                assert(o[i as int] == (v@[i as int].0@, v@[i as int].1@));
                self.merge_config_value(v[i].0.as_str(), &v[i].1, source);
                proof {
                    lemma_rest_unchanged(start, before, *self);
                }
                i += 1;
            }
        }
    }

    fn note_variable(&mut self, key: &str, variable: &str)
        ensures
            final(self)@ == from_variable(old(self)@, key@, variable@),
            rest_unchanged(*old(self), *final(self)),
    {
        self.note(key, ConfigSource::Environment(variable.to_owned()));
    }

    fn override_timeout(&mut self, v: &Option<u64>)
        ensures
            final(self)@ == over_timeout(old(self)@, *v),
            rest_unchanged(*old(self), *final(self)),
    {
        let ghost start = *self;
        if let Some(n) = v {
            self.set_process_timeout(*n);
            let ghost midway = *self;
            self.note_variable("process-timeout", "COMPOSER_PROCESS_TIMEOUT");
            proof {
                lemma_rest_unchanged(start, midway, *self);
            }
        }
        proof {
            lemma_rest_unchanged(start, start, start);
        }
    }

    fn override_cache(&mut self, v: &Option<String>)
        ensures
            final(self)@ == over_cache(old(self)@, *v),
            rest_unchanged(*old(self), *final(self)),
    {
        let ghost start = *self;
        if let Some(t) = v {
            self.set_cache_dir(Some(t.clone()));
            let ghost midway = *self;
            self.note_variable("cache-dir", "COMPOSER_CACHE_DIR");
            proof {
                lemma_rest_unchanged(start, midway, *self);
            }
        }
        proof {
            lemma_rest_unchanged(start, start, start);
        }
    }

    fn override_vendor(&mut self, v: &Option<String>)
        ensures
            final(self)@ == over_vendor(old(self)@, *v),
            rest_unchanged(*old(self), *final(self)),
    {
        let ghost start = *self;
        if let Some(t) = v {
            self.set_vendor_dir(t.clone());
            let ghost midway = *self;
            self.note_variable("vendor-dir", "COMPOSER_VENDOR_DIR");
            proof {
                lemma_rest_unchanged(start, midway, *self);
            }
        }
        proof {
            lemma_rest_unchanged(start, start, start);
        }
    }

    fn override_bin(&mut self, v: &Option<String>)
        ensures
            final(self)@ == over_bin(old(self)@, *v),
            rest_unchanged(*old(self), *final(self)),
    {
        let ghost start = *self;
        if let Some(t) = v {
            self.set_bin_dir(t.clone());
            let ghost midway = *self;
            self.note_variable("bin-dir", "COMPOSER_BIN_DIR");
            proof {
                lemma_rest_unchanged(start, midway, *self);
            }
        }
        proof {
            lemma_rest_unchanged(start, start, start);
        }
    }

    fn override_read_only(&mut self, v: &Option<bool>)
        ensures
            final(self)@ == over_read_only(old(self)@, *v),
            rest_unchanged(*old(self), *final(self)),
    {
        let ghost start = *self;
        if let Some(b) = v {
            self.set_cache_read_only(*b);
            let ghost midway = *self;
            self.note_variable("cache-read-only", "COMPOSER_CACHE_READ_ONLY");
            proof {
                lemma_rest_unchanged(start, midway, *self);
            }
        }
        proof {
            lemma_rest_unchanged(start, start, start);
        }
    }

    fn override_htaccess(&mut self, v: &Option<bool>)
        ensures
            final(self)@ == over_htaccess(old(self)@, *v),
            rest_unchanged(*old(self), *final(self)),
    {
        let ghost start = *self;
        if let Some(b) = v {
            self.set_htaccess_protect(*b);
            let ghost midway = *self;
            self.note_variable("htaccess-protect", "COMPOSER_HTACCESS_PROTECT");
            proof {
                lemma_rest_unchanged(start, midway, *self);
            }
        }
        proof {
            lemma_rest_unchanged(start, start, start);
        }
    }

    fn override_discard(&mut self, v: &Option<String>)
        ensures
            final(self)@ == over_discard(old(self)@, *v),
            rest_unchanged(*old(self), *final(self)),
    {
        let ghost start = *self;
        if let Some(t) = v {
            if let Some(d) = DiscardChanges::from_str(t.as_str()) {
                self.set_discard_changes(d);
                let ghost midway = *self;
                self.note_variable("discard-changes", "COMPOSER_DISCARD_CHANGES");
                proof {
                    lemma_rest_unchanged(start, midway, *self);
                }
            }
        }
        proof {
            lemma_rest_unchanged(start, start, start);
        }
    }

    /// Puts the environment in force.
    pub fn apply_env_overrides(&mut self, e: &EnvironmentOverrides)
        ensures
            final(self)@ == overridden(old(self)@, *e),
            rest_unchanged(*old(self), *final(self)),
    {
        let ghost start = *self;
        self.override_timeout(&e.process_timeout);
        let ghost a = *self;
        self.override_cache(&e.cache_dir);
        let ghost b = *self;
        self.override_vendor(&e.vendor_dir);
        let ghost c = *self;
        self.override_bin(&e.bin_dir);
        let ghost d = *self;
        self.override_discard(&e.discard_changes);
        let ghost f = *self;
        self.override_read_only(&e.cache_read_only);
        let ghost g = *self;
        self.override_htaccess(&e.htaccess_protect);
        proof {
            lemma_rest_unchanged(start, a, b);
            lemma_rest_unchanged(start, b, c);
            lemma_rest_unchanged(start, c, d);
            lemma_rest_unchanged(start, d, f);
            lemma_rest_unchanged(start, f, g);
            lemma_rest_unchanged(start, g, *self);
        }
    }

    /// Fills the directories in that nothing configured.
    pub fn resolve_paths(&mut self, home: &str, cache: &str)
        ensures
            final(self)@ == completed(old(self)@, home@, cache@),
            rest_unchanged(*old(self), *final(self)),
    {
        let ghost start = *self;
        proof {
            reveal_strlit("{$vendor-dir}");
        }
        let home_dir = self.home_or(home);
        let cache_dir = self.cache_or(cache);
        let data_dir = self.data_or(home_dir.as_str());
        let (files, repo, vcs) = self.cache_dirs_or(cache_dir.as_str());
        let bin_dir = self.bin_dir_filled();
        self.set_home_dir(Some(home_dir));
        let ghost a = *self;
        self.set_cache_dir(Some(cache_dir));
        let ghost b = *self;
        self.set_data_dir(Some(data_dir));
        let ghost c = *self;
        self.set_cache_files_dir(Some(files));
        let ghost d = *self;
        self.set_cache_repo_dir(Some(repo));
        let ghost e = *self;
        self.set_cache_vcs_dir(Some(vcs));
        let ghost f = *self;
        self.set_bin_dir(bin_dir);
        proof {
            lemma_rest_unchanged(start, a, b);
            lemma_rest_unchanged(start, b, c);
            lemma_rest_unchanged(start, c, d);
            lemma_rest_unchanged(start, d, e);
            lemma_rest_unchanged(start, e, f);
            lemma_rest_unchanged(start, f, *self);
        }
    }

    fn home_or(&self, home: &str) -> (r: String)
        ensures
            Some(r@) == or_else(self@.home_dir, home@),
    {
        proof {
            reveal(config_view);
        }
        match &self.home_dir {
            Some(d) => d.clone(),
            None => home.to_owned(),
        }
    }

    fn cache_or(&self, cache: &str) -> (r: String)
        ensures
            Some(r@) == or_else(self@.cache_dir, cache@),
    {
        proof {
            reveal(config_view);
        }
        match &self.cache_dir {
            Some(d) => d.clone(),
            None => cache.to_owned(),
        }
    }

    fn data_or(&self, home: &str) -> (r: String)
        ensures
            Some(r@) == or_else(self@.data_dir, home@),
    {
        proof {
            reveal(config_view);
        }
        match &self.data_dir {
            Some(d) => d.clone(),
            None => home.to_owned(),
        }
    }

    fn cache_dirs_or(&self, cache: &str) -> (r: (String, String, String))
        ensures
            Some(r.0@) == or_else(self@.cache_files_dir, joined_path(cache@, "files"@)),
            Some(r.1@) == or_else(self@.cache_repo_dir, joined_path(cache@, "repo"@)),
            Some(r.2@) == or_else(self@.cache_vcs_dir, joined_path(cache@, "vcs"@)),
    {
        proof {
            reveal(config_view);
        }
        let files = match &self.cache_files_dir {
            Some(d) => d.clone(),
            None => join_path(cache, "files"),
        };
        let repo = match &self.cache_repo_dir {
            Some(d) => d.clone(),
            None => join_path(cache, "repo"),
        };
        let vcs = match &self.cache_vcs_dir {
            Some(d) => d.clone(),
            None => join_path(cache, "vcs"),
        };
        (files, repo, vcs)
    }

    fn bin_dir_filled(&self) -> (r: String)
        ensures
            r@ == replaced(self@.bin_dir, "{$vendor-dir}"@, self@.vendor_dir),
    {
        proof {
            reveal(config_view);
            reveal_strlit("{$vendor-dir}");
        }
        replace(self.bin_dir.as_str(), "{$vendor-dir}", self.vendor_dir.as_str())
    }

    /// The configuration for a project, from the settings of the global file and of
    /// the project, the environment, and the directories of the user.
    pub fn build(
        base_dir: Option<&str>,
        global: &Option<Vec<(String, Json)>>,
        project: &Option<Vec<(String, Json)>>,
        environment: &Option<EnvironmentOverrides>,
        home: &str,
        cache: &str,
    ) -> (r: Config)
        ensures
            r@ == built(
                match base_dir {
                    Some(d) => Some(d@),
                    None => None,
                },
                *global,
                *project,
                *environment,
                home@,
                cache@,
            ),
            rest_is_default(r),
    {
        let mut r = Config::default();
        let ghost first = r;
        proof {
            lemma_rest_unchanged(first, first, first);
        }
        if let Some(d) = base_dir {
            r.set_base_dir(d);
        }
        let ghost start = r@;
        let keys = config_keys();
        let mut i: usize = 0;
        assert(crate::text::str_views(keys@).len() == keys.len());
        while i < keys.len()
            invariant
                i <= keys.len(),
                crate::text::str_views(keys@) == known_keys(),
                crate::text::str_views(keys@).len() == keys.len(),
                r@ == from_defaults(start, i as int),
                rest_unchanged(first, r),
            decreases keys.len() - i,
        {
            assert(crate::text::str_views(keys@)[i as int] == keys@[i as int]@);
            let ghost before = r;
            r.note(keys[i], ConfigSource::Default);
            proof {
                lemma_rest_unchanged(first, before, r);
            }
            i += 1;
        }
        let ghost a = r;
        r.merge_raw_config(global, &ConfigSource::Global);
        let ghost b = r;
        r.merge_raw_config(project, &ConfigSource::Project);
        let ghost c = r;
        proof {
            lemma_rest_unchanged(c, c, c);
        }
        if let Some(e) = environment {
            r.apply_env_overrides(e);
        }
        let ghost d = r;
        r.resolve_paths(home, cache);
        proof {
            lemma_rest_unchanged(first, a, b);
            lemma_rest_unchanged(first, b, c);
            lemma_rest_unchanged(first, c, d);
            lemma_rest_unchanged(first, d, r);
            lemma_rest_stays_default(first, r);
        }
        r
    }
}

} // verus!
