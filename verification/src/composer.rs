//! What a run of the package manager works with.
use vstd::prelude::*;

use crate::config::settings::{Config, PreferredInstall};
use crate::error::{refuse, Refusal};
use crate::installer::operations::InstallConfig;
use crate::lock::{opt, ComposerLock};
use crate::package::Package;
use crate::paths::{join_path, joined_path};
use crate::schema::{is_packagist_disabled, public_repository_off, ComposerJson};

verus! {

/// What a run works with.
#[derive(Debug)]
pub struct Composer {
    pub config: Config,
    pub composer_json: ComposerJson,
    pub composer_lock: Option<ComposerLock>,
    pub working_dir: String,
    pub platform_packages: Vec<Package>,
    pub install_config: InstallConfig,
    /// The public repository is asked, behind the repositories of the project.
    pub packagist: bool,
    pub plugins_enabled: bool,
}

impl Composer {
    /// Starts to gather what a run works with.
    pub fn builder(working_dir: String) -> (r: ComposerBuilder)
        ensures
            r.working_dir == working_dir,
            r.platform_packages@.len() == 0,
            is_unset(r),
    {
        ComposerBuilder::new(working_dir)
    }

    /// Where the packages go.
    pub fn vendor_dir(&self) -> (r: String)
        ensures
            r@ == joined_path(self.working_dir@, self.config.vendor_dir@),
    {
        join_path(self.working_dir.as_str(), self.config.vendor_dir.as_str())
    }
}

/// Gathers what a run works with.
#[derive(Debug)]
pub struct ComposerBuilder {
    pub working_dir: String,
    pub config: Option<Config>,
    pub composer_json: Option<ComposerJson>,
    pub composer_lock: Option<ComposerLock>,
    pub prefer_source: Option<bool>,
    pub prefer_dist: Option<bool>,
    pub dry_run: bool,
    pub no_dev: bool,
    pub prefer_lowest: bool,
    pub platform_packages: Vec<Package>,
    pub plugins_enabled: bool,
    pub disable_packagist: Option<bool>,
}

/// Nothing was set but, perhaps, the directory and the packages of the platform.
pub open spec fn is_unset(b: ComposerBuilder) -> bool {
    &&& b.config is None
    &&& b.composer_json is None
    &&& b.composer_lock is None
    &&& b.prefer_source is None
    &&& b.prefer_dist is None
    &&& !b.dry_run
    &&& !b.no_dev
    &&& !b.prefer_lowest
    &&& b.plugins_enabled
    &&& b.disable_packagist is None
}

/// Whether sources and whether archives are preferred: what was set counts, the one that was
/// not set is the opposite of the other; where neither was, the configuration decides, for
/// archives where it does not care.
pub open spec fn preference(
    source: Option<bool>,
    dist: Option<bool>,
    configured: PreferredInstall,
) -> (bool, bool) {
    match (source, dist) {
        (Some(s), Some(d)) => (s, d),
        (Some(s), None) => (s, !s),
        (None, Some(d)) => (!d, d),
        (None, None) => (configured is Source, !(configured is Source)),
    }
}

impl ComposerBuilder {
    /// Nothing but the directory.
    pub fn new(working_dir: String) -> (r: ComposerBuilder)
        ensures
            r.working_dir == working_dir,
            r.platform_packages@.len() == 0,
            is_unset(r),
    {
        ComposerBuilder {
            working_dir,
            config: None,
            composer_json: None,
            composer_lock: None,
            prefer_source: None,
            prefer_dist: None,
            dry_run: false,
            no_dev: false,
            prefer_lowest: false,
            platform_packages: Vec::new(),
            plugins_enabled: true,
            disable_packagist: None,
        }
    }

    pub fn with_config(self, config: Config) -> (r: ComposerBuilder)
        ensures
            r == (ComposerBuilder { config: Some(config), ..self }),
    {
        let mut b = self;
        b.config = Some(config);
        b
    }

    pub fn with_composer_json(self, composer_json: ComposerJson) -> (r: ComposerBuilder)
        ensures
            r == (ComposerBuilder { composer_json: Some(composer_json), ..self }),
    {
        let mut b = self;
        b.composer_json = Some(composer_json);
        b
    }

    pub fn with_composer_lock(self, composer_lock: Option<ComposerLock>) -> (r: ComposerBuilder)
        ensures
            r == (ComposerBuilder { composer_lock, ..self }),
    {
        let mut b = self;
        b.composer_lock = composer_lock;
        b
    }

    /// Prefers sources or not; to prefer them is not to prefer archives.
    pub fn prefer_source(self, prefer: bool) -> (r: ComposerBuilder)
        ensures
            r == (ComposerBuilder {
                prefer_source: Some(prefer),
                prefer_dist: if prefer {
                    Some(false)
                } else {
                    self.prefer_dist
                },
                ..self
            }),
    {
        let mut b = self;
        b.prefer_source = Some(prefer);
        if prefer {
            b.prefer_dist = Some(false);
        }
        b
    }

    /// Prefers archives or not; to prefer them is not to prefer sources.
    pub fn prefer_dist(self, prefer: bool) -> (r: ComposerBuilder)
        ensures
            r == (ComposerBuilder {
                prefer_dist: Some(prefer),
                prefer_source: if prefer {
                    Some(false)
                } else {
                    self.prefer_source
                },
                ..self
            }),
    {
        let mut b = self;
        b.prefer_dist = Some(prefer);
        if prefer {
            b.prefer_source = Some(false);
        }
        b
    }

    pub fn dry_run(self, dry_run: bool) -> (r: ComposerBuilder)
        ensures
            r == (ComposerBuilder { dry_run, ..self }),
    {
        let mut b = self;
        b.dry_run = dry_run;
        b
    }

    pub fn no_dev(self, no_dev: bool) -> (r: ComposerBuilder)
        ensures
            r == (ComposerBuilder { no_dev, ..self }),
    {
        let mut b = self;
        b.no_dev = no_dev;
        b
    }

    pub fn prefer_lowest(self, prefer: bool) -> (r: ComposerBuilder)
        ensures
            r == (ComposerBuilder { prefer_lowest: prefer, ..self }),
    {
        let mut b = self;
        b.prefer_lowest = prefer;
        b
    }

    pub fn with_platform_packages(self, packages: Vec<Package>) -> (r: ComposerBuilder)
        ensures
            r == (ComposerBuilder { platform_packages: packages, ..self }),
    {
        let mut b = self;
        b.platform_packages = packages;
        b
    }

    pub fn plugins_enabled(self, enabled: bool) -> (r: ComposerBuilder)
        ensures
            r == (ComposerBuilder { plugins_enabled: enabled, ..self }),
    {
        let mut b = self;
        b.plugins_enabled = enabled;
        b
    }

    pub fn disable_packagist(self, disable: bool) -> (r: ComposerBuilder)
        ensures
            r == (ComposerBuilder { disable_packagist: Some(disable), ..self }),
    {
        let mut b = self;
        b.disable_packagist = Some(disable);
        b
    }

    /// The install configuration is the one for these directories.
    pub open spec fn installs(&self, vendor: Seq<char>, bin: Seq<char>, cache: Option<Seq<char>>,
        configured: PreferredInstall, c: InstallConfig) -> bool {
        let p = preference(self.prefer_source, self.prefer_dist, configured);
        &&& c.vendor_dir@ == joined_path(self.working_dir@, vendor)
        &&& c.bin_dir@ == joined_path(self.working_dir@, bin)
        &&& c.cache_dir@ == match cache {
            Some(d) => d,
            None => joined_path(self.working_dir@, ".composer-rs/cache"@),
        }
        &&& (c.prefer_source, c.prefer_dist) == p
        &&& c.dry_run == self.dry_run
        &&& c.no_dev == self.no_dev
        &&& c.prefer_lowest == self.prefer_lowest
    }

    /// How packages are installed.
    pub fn build_install_config(&self, config: &Config) -> (r: InstallConfig)
        ensures
            self.installs(
                config.vendor_dir@,
                config.bin_dir@,
                opt(config.cache_dir),
                config.preferred_install,
                r,
            ),
    {
        let (source, dist) = match (self.prefer_source, self.prefer_dist) {
            (Some(s), Some(d)) => (s, d),
            (Some(s), None) => (s, !s),
            (None, Some(d)) => (!d, d),
            (None, None) => match config.preferred_install {
                PreferredInstall::Source => (true, false),
                PreferredInstall::Dist => (false, true),
                PreferredInstall::Auto => (false, true),
            },
        };
        let dir = self.working_dir.as_str();
        let cache_dir = match &config.cache_dir {
            Some(d) => d.clone(),
            None => join_path(dir, ".composer-rs/cache"),
        };
        InstallConfig {
            vendor_dir: join_path(dir, config.vendor_dir.as_str()),
            bin_dir: join_path(dir, config.bin_dir.as_str()),
            cache_dir,
            prefer_source: source,
            prefer_dist: dist,
            dry_run: self.dry_run,
            no_dev: self.no_dev,
            prefer_lowest: self.prefer_lowest,
        }
    }

    /// What the run works with. Without a manifest there is none; without a configuration
    /// the defaults for the directory count.
    pub fn build(self) -> (r: Result<Composer, Refusal>)
        ensures
            r is Ok <==> self.composer_json is Some,
            r matches Err(e) ==> e@ == "composer.json is required"@,
            r matches Ok(c) ==> {
                &&& Some(c.composer_json) == self.composer_json
                &&& c.composer_lock == self.composer_lock
                &&& c.working_dir == self.working_dir
                &&& c.platform_packages == self.platform_packages
                &&& c.plugins_enabled == self.plugins_enabled
                &&& c.packagist == !(match self.disable_packagist {
                    Some(d) => d,
                    None => public_repository_off(c.composer_json.repositories),
                })
                &&& self.config matches Some(given) ==> c.config == given
                &&& self.config is None ==> c.config@ == (crate::config::settings::ConfigView {
                    base_dir: Some(self.working_dir@),
                    ..crate::config::settings::default_config()
                })
                &&& self.config is None ==> crate::config::settings::rest_is_default(c.config)
                &&& self.installs(
                    c.config.vendor_dir@,
                    c.config.bin_dir@,
                    opt(c.config.cache_dir),
                    c.config.preferred_install,
                    c.install_config,
                )
            },
    {
        let mut b = self;
        let composer_json = match b.composer_json.take() {
            Some(j) => j,
            None => {
                return refuse("composer.json is required");
            },
        };
        let config = match b.config.take() {
            Some(c) => c,
            None => Config::with_base_dir(b.working_dir.as_str()),
        };
        let install_config = b.build_install_config(&config);
        let off = match b.disable_packagist {
            Some(d) => d,
            None => is_packagist_disabled(&composer_json.repositories),
        };
        Ok(
            Composer {
                config,
                composer_json,
                composer_lock: b.composer_lock,
                working_dir: b.working_dir,
                platform_packages: b.platform_packages,
                install_config,
                packagist: !off,
                plugins_enabled: b.plugins_enabled,
            },
        )
    }
}

/// Of the two ways to prefer one kind, the last one counts.
pub proof fn law_last_preference_counts(b: ComposerBuilder, configured: PreferredInstall)
    ensures
        preference(Some(true), Some(false), configured) == (true, false),
        preference(Some(false), Some(true), configured) == (false, true),
        preference(b.prefer_source, b.prefer_dist, configured).0 != preference(
            b.prefer_source,
            b.prefer_dist,
            configured,
        ).1 || (b.prefer_source is Some && b.prefer_source == b.prefer_dist),
{
}

} // verus!
