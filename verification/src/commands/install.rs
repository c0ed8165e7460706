//! The commands `install`, `update`, `dump-autoload` and `run`: what is asked of the
//! installer, and what follows it.
use vstd::prelude::*;

use crate::commands::audit::AuditArgs;
use crate::composer::ComposerBuilder;
use crate::installer::flow::{InstallOptions, UpdateOptions};
use crate::lock::{copy_strings, opt};
use crate::text::{str_equal, views};

verus! {

/// What the user asks of `install`.
#[derive(Debug)]
pub struct InstallArgs {
    pub prefer_source: bool,
    pub prefer_dist: bool,
    pub dry_run: bool,
    pub no_dev: bool,
    pub no_autoloader: bool,
    pub no_scripts: bool,
    pub no_plugins: bool,
    pub no_progress: bool,
    pub optimize_autoloader: bool,
    pub classmap_authoritative: bool,
    pub apcu_autoloader: bool,
    pub ignore_platform_reqs: bool,
    pub working_dir: String,
    pub ansi: bool,
    pub no_ansi: bool,
    pub no_interaction: bool,
    pub quiet: bool,
    pub verbose: u8,
    pub no_audit: bool,
    pub audit_format: String,
}

/// What the user asks of `update`.
#[derive(Debug)]
pub struct UpdateArgs {
    /// The packages to update, all where none is named.
    pub packages: Vec<String>,
    pub prefer_source: bool,
    pub prefer_dist: bool,
    pub dry_run: bool,
    pub no_dev: bool,
    pub no_autoloader: bool,
    pub no_scripts: bool,
    pub no_plugins: bool,
    pub no_progress: bool,
    pub with_dependencies: bool,
    pub with_all_dependencies: bool,
    pub prefer_stable: bool,
    pub prefer_lowest: bool,
    /// Write the lock file only.
    pub lock: bool,
    pub optimize_autoloader: bool,
    pub working_dir: String,
    pub ansi: bool,
    pub no_ansi: bool,
    pub no_interaction: bool,
    pub quiet: bool,
    pub verbose: u8,
    pub no_audit: bool,
    pub audit_format: String,
}

/// What the user asks of `dump-autoload`.
#[derive(Debug)]
pub struct DumpAutoloadArgs {
    pub optimize: bool,
    pub classmap_authoritative: bool,
    pub apcu: bool,
    pub no_dev: bool,
    pub no_scripts: bool,
    pub no_plugins: bool,
    pub working_dir: String,
}

/// What the user asks of `run`.
#[derive(Debug)]
pub struct RunArgs {
    pub script: Option<String>,
    pub list: bool,
    pub working_dir: String,
    /// What the script is given.
    pub args: Vec<String>,
}

impl RunArgs {
    /// The script to run; none where the scripts are to be listed.
    pub fn script_to_run(&self) -> (r: Option<&str>)
        ensures
            r.is_some() == (!self.list && self.script is Some),
            r matches Some(s) ==> s@ == self.script->0@,
    {
        if self.list {
            return None;
        }
        match &self.script {
            Some(s) => Some(s.as_str()),
            None => None,
        }
    }
}

impl InstallArgs {
    /// What is asked of the installer where there is a lock file.
    pub fn install_options(&self) -> (r: InstallOptions)
        ensures
            r == (InstallOptions {
                optimize_autoloader: self.optimize_autoloader,
                classmap_authoritative: self.classmap_authoritative,
                apcu_autoloader: self.apcu_autoloader,
                ignore_platform_reqs: self.ignore_platform_reqs,
                no_autoloader: self.no_autoloader,
                no_scripts: self.no_scripts,
            }),
    {
        InstallOptions {
            optimize_autoloader: self.optimize_autoloader,
            classmap_authoritative: self.classmap_authoritative,
            apcu_autoloader: self.apcu_autoloader,
            ignore_platform_reqs: self.ignore_platform_reqs,
            no_autoloader: self.no_autoloader,
            no_scripts: self.no_scripts,
        }
    }

    /// What is asked of the installer where there is no lock file: to make one.
    pub fn update_options(&self) -> (r: UpdateOptions)
        ensures
            r == (UpdateOptions {
                optimize_autoloader: self.optimize_autoloader,
                classmap_authoritative: self.classmap_authoritative,
                apcu_autoloader: self.apcu_autoloader,
                update_lock_only: false,
                update_packages: None,
                with_dependencies: false,
                with_all_dependencies: false,
                no_autoloader: self.no_autoloader,
                no_scripts: self.no_scripts,
            }),
    {
        let mut o = UpdateOptions::default();
        o.optimize_autoloader = self.optimize_autoloader;
        o.classmap_authoritative = self.classmap_authoritative;
        o.apcu_autoloader = self.apcu_autoloader;
        o.no_autoloader = self.no_autoloader;
        o.no_scripts = self.no_scripts;
        o
    }
}

/// The packages that were named, where any were.
pub open spec fn named(packages: Seq<String>) -> Option<Seq<Seq<char>>> {
    if packages.len() == 0 {
        None
    } else {
        Some(views(packages))
    }
}

impl UpdateArgs {
    /// What is asked of the installer.
    pub fn update_options(&self) -> (r: UpdateOptions)
        ensures
            (match r.update_packages {
                Some(v) => Some(views(v@)),
                None => None,
            }) == named(self.packages@),
            r == (UpdateOptions {
                optimize_autoloader: self.optimize_autoloader,
                classmap_authoritative: false,
                apcu_autoloader: false,
                update_lock_only: self.lock,
                update_packages: r.update_packages,
                with_dependencies: self.with_dependencies || self.with_all_dependencies,
                with_all_dependencies: self.with_all_dependencies,
                no_autoloader: self.no_autoloader,
                no_scripts: self.no_scripts,
            }),
    {
        let mut o = UpdateOptions::default();
        o.optimize_autoloader = self.optimize_autoloader;
        o.update_lock_only = self.lock;
        o.update_packages = if self.packages.len() == 0 {
            None
        } else {
            Some(copy_strings(&self.packages))
        };
        o.with_dependencies = self.with_dependencies || self.with_all_dependencies;
        o.with_all_dependencies = self.with_all_dependencies;
        o.no_autoloader = self.no_autoloader;
        o.no_scripts = self.no_scripts;
        o
    }
}

/// The builder with what was asked for: sources come before archives where both were.
pub fn with_preference(b: ComposerBuilder, prefer_source: bool, prefer_dist: bool) -> (r:
    ComposerBuilder)
    ensures
        r == (ComposerBuilder {
            prefer_source: if prefer_source {
                Some(true)
            } else if prefer_dist {
                Some(false)
            } else {
                b.prefer_source
            },
            prefer_dist: if prefer_source {
                Some(false)
            } else if prefer_dist {
                Some(true)
            } else {
                b.prefer_dist
            },
            ..b
        }),
{
    if prefer_source {
        b.prefer_source(true)
    } else if prefer_dist {
        b.prefer_dist(true)
    } else {
        b
    }
}

/// Whether an audit follows: the run ended well, and nobody asked for none. `variable` is
/// `COMPOSER_NO_AUDIT`.
pub fn audit_follows(no_audit: bool, variable: Option<&str>, code: Option<i32>) -> (r: bool)
    ensures
        r == (code == Some(0i32) && !no_audit && !(variable matches Some(v) && v@ == "1"@)),
{
    let skipped = match variable {
        Some(v) => str_equal(v, "1"),
        None => false,
    };
    let well = match code {
        Some(c) => c == 0,
        None => false,
    };
    well && !no_audit && !skipped
}

/// What is asked of the audit that follows: abandoned packages are reported and do no harm.
pub fn audit_args(no_dev: bool, format: &str, working_dir: &str) -> (r: AuditArgs)
    ensures
        r.no_dev == no_dev,
        r.format@ == format@,
        !r.locked,
        opt(r.abandoned) == Some("report"@),
        r.working_dir@ == working_dir@,
{
    AuditArgs {
        no_dev,
        format: format.to_owned(),
        locked: false,
        abandoned: Some("report".to_owned()),
        working_dir: working_dir.to_owned(),
    }
}

} // verus!
