//! What the installer hands to the generator of the loader, and what it tells the user.
use vstd::prelude::*;
use vstd::string::*;

use crate::autoload::types::{AutoloadConfig, PackageAutoload};
use crate::installer::autoloads::{
    installed_from, locked_package_to_autoload, real_names, same_autoload, source_reference,
};
use crate::installer::selection::{aliases_of, aliases_under};
use crate::links::links;
use crate::lock::{copy_option, opt, same_locked, ComposerLock, LockAlias, LockedPackage};
use crate::schema::ComposerJson;
use crate::text::{decimal, number, signed_decimal, views};

verus! {

// ---------------------------------------------------------------------------
// The input of the generator
// ---------------------------------------------------------------------------
/// How the files are generated: a loader that loads only what was looked up beforehand looks
/// everything up beforehand.
pub fn autoload_config(
    vendor_dir: &str,
    base_dir: &str,
    optimize: bool,
    authoritative: bool,
    apcu: bool,
    suffix: Option<String>,
) -> (r: AutoloadConfig)
    ensures
        r.vendor_dir@ == vendor_dir@,
        r.base_dir@ == base_dir@,
        r.optimize == (optimize || authoritative),
        r.authoritative == authoritative,
        r.apcu == apcu,
        r.suffix == suffix,
{
    AutoloadConfig {
        vendor_dir: vendor_dir.to_owned(),
        base_dir: base_dir.to_owned(),
        optimize: optimize || authoritative,
        apcu,
        authoritative,
        suffix,
    }
}

/// The package as the generator takes it.
pub open spec fn is_taken(
    r: PackageAutoload,
    lp: LockedPackage,
    is_dev: bool,
    aliases: Seq<LockAlias>,
    prefer_source: bool,
    normalized: Option<String>,
) -> bool {
    &&& r.name@ == lp.name@
    &&& same_autoload(r.autoload, lp.autoload)
    &&& r.install_path@ == lp.name@
    &&& views(r.requires@) == real_names(links(lp.require), links(lp.require).len() as int)
    &&& opt(r.pretty_version) == Some(lp.version@)
    &&& opt(r.version) == Some(
        match normalized {
            Some(n) => n@,
            None => lp.version@,
        },
    )
    &&& opt(r.reference) == source_reference(lp)
    &&& r.package_type@ == lp.package_type@
    &&& r.dev_requirement == is_dev
    &&& views(r.aliases@) == aliases_under(aliases, aliases.len() as int, lp.name@)
    &&& links(r.replaces) == links(lp.replace)
    &&& links(r.provides) == links(lp.provide)
    &&& r.locked_package matches Some(p) && same_locked(p, lp)
    &&& opt(r.installation_source) == installed_from(lp, prefer_source)
}

/// The packages as the generator takes them.
pub open spec fn all_taken(
    r: Seq<PackageAutoload>,
    lock: ComposerLock,
    dev_mode: bool,
    aliases: Seq<LockAlias>,
    prefer_source: bool,
    normalized: Seq<Option<String>>,
) -> bool {
    let prod = lock.packages@.len();
    let all = lock.packages@ + lock.packages_dev@;
    &&& r.len() == if dev_mode {
        all.len()
    } else {
        prod
    }
    &&& forall|i: int|
        0 <= i < r.len() ==> is_taken(
            #[trigger] r[i],
            all[i],
            i >= prod,
            aliases,
            prefer_source,
            normalized[i],
        )
}

/// The locked packages as the generator takes them, those for development last or left out.
/// `normalized` holds their versions in normal form.
pub fn package_autoloads(
    lock: &ComposerLock,
    dev_mode: bool,
    aliases: &Vec<LockAlias>,
    prefer_source: bool,
    normalized: &Vec<Option<String>>,
) -> (r: Vec<PackageAutoload>)
    requires
        normalized@.len() == lock.packages@.len() + lock.packages_dev@.len(),
    ensures
        all_taken(r@, *lock, dev_mode, aliases@, prefer_source, normalized@),
{
    let ghost all = lock.packages@ + lock.packages_dev@;
    let mut out: Vec<PackageAutoload> = Vec::new();
    let mut i: usize = 0;
    while i < lock.packages.len()
        invariant
            i <= lock.packages.len(),
            normalized@.len() == lock.packages@.len() + lock.packages_dev@.len(),
            all == lock.packages@ + lock.packages_dev@,
            out@.len() == i,
            forall|k: int|
                0 <= k < i ==> is_taken(
                    #[trigger] out@[k],
                    all[k],
                    false,
                    aliases@,
                    prefer_source,
                    normalized@[k],
                ),
        decreases lock.packages.len() - i,
    {
        let n = copy_option(&normalized[i]);
        let one = locked_package_to_autoload(
            &lock.packages[i],
            false,
            aliases,
            prefer_source,
            n,
        );
        assert(opt(n) == opt(normalized@[i as int]));
        assert(all[i as int] == lock.packages@[i as int]);
        assert(is_taken(
            one,
            all[i as int],
            false,
            aliases@,
            prefer_source,
            normalized@[i as int],
        ));
        out.push(one);
        i += 1;
    }
    if dev_mode {
        let mut j: usize = 0;
        let prod: usize = lock.packages.len();
        let total: usize = normalized.len();
        while j < lock.packages_dev.len()
            invariant
                j <= lock.packages_dev.len(),
                prod == lock.packages@.len(),
                normalized@.len() == lock.packages@.len() + lock.packages_dev@.len(),
                normalized@.len() == total,
                all == lock.packages@ + lock.packages_dev@,
                out@.len() == prod + j,
                forall|k: int|
                    0 <= k < out@.len() ==> is_taken(
                        #[trigger] out@[k],
                        all[k],
                        k >= prod,
                        aliases@,
                        prefer_source,
                        normalized@[k],
                    ),
            decreases lock.packages_dev.len() - j,
        {
            let n = copy_option(&normalized[prod + j]);
            let one = locked_package_to_autoload(
                &lock.packages_dev[j],
                true,
                aliases,
                prefer_source,
                n,
            );
            assert(opt(n) == opt(normalized@[prod + j]));
            assert(all[prod + j] == lock.packages_dev@[j as int]);
            assert(is_taken(
                one,
                all[prod + j],
                true,
                aliases@,
                prefer_source,
                normalized@[prod + j],
            ));
            out.push(one);
            j += 1;
        }
    }
    out
}

/// The aliases of the project: those of its name, or of no name where it has none.
pub fn root_aliases(aliases: &Vec<LockAlias>, manifest: &ComposerJson) -> (r: Vec<String>)
    ensures
        views(r@) == aliases_under(
            aliases@,
            aliases@.len() as int,
            match manifest.name {
                Some(n) => n@,
                None => ""@,
            },
        ),
{
    match &manifest.name {
        Some(n) => aliases_of(aliases, n.as_str()),
        None => aliases_of(aliases, ""),
    }
}

// ---------------------------------------------------------------------------
// A dump of the loader
// ---------------------------------------------------------------------------
/// A step of a dump of the loader.
#[derive(Debug, Clone, Copy, PartialEq, Eq, Structural)]
pub enum DumpStep {
    PreScripts,
    Dump,
    PostScripts,
    /// Say that the files were generated.
    Report,
    /// The scripts before the dump failed.
    Fail { exit_code: i32 },
    Finish,
}

/// The step that follows on another. Scripts that fail before the dump stop it; those after
/// it do not.
pub open spec fn dump_step(no_scripts: bool, last: Option<DumpStep>, exit_code: i32) -> DumpStep {
    match last {
        None => if no_scripts {
            DumpStep::Dump
        } else {
            DumpStep::PreScripts
        },
        Some(DumpStep::PreScripts) => if exit_code != 0 {
            DumpStep::Fail { exit_code }
        } else {
            DumpStep::Dump
        },
        Some(DumpStep::Dump) => if no_scripts {
            DumpStep::Report
        } else {
            DumpStep::PostScripts
        },
        Some(DumpStep::PostScripts) => DumpStep::Report,
        Some(DumpStep::Report) => DumpStep::Finish,
        Some(other) => other,
    }
}

/// The step that follows on another. `exit_code` is that of the scripts that ran in it.
pub fn next_dump_step(no_scripts: bool, last: Option<DumpStep>, exit_code: i32) -> (r: DumpStep)
    ensures
        r == dump_step(no_scripts, last, exit_code),
{
    match last {
        None => if no_scripts {
            DumpStep::Dump
        } else {
            DumpStep::PreScripts
        },
        Some(DumpStep::PreScripts) => if exit_code != 0 {
            DumpStep::Fail { exit_code }
        } else {
            DumpStep::Dump
        },
        Some(DumpStep::Dump) => if no_scripts {
            DumpStep::Report
        } else {
            DumpStep::PostScripts
        },
        Some(DumpStep::PostScripts) => DumpStep::Report,
        Some(DumpStep::Report) => DumpStep::Finish,
        Some(other) => other,
    }
}

fn signed(n: i32) -> (r: String)
    ensures
        r@ == signed_decimal(n as int),
{
    if n < 0 {
        proof {
            reveal_strlit("-");
            assert("-"@ =~= seq!['-']);
        }
        let magnitude: u64 = (-(n as i64)) as u64;
        "-".to_owned().concat(number(magnitude).as_str())
    } else {
        number(n as u64)
    }
}

/// What is said where the scripts before the dump fail.
pub fn dump_failed(exit_code: i32) -> (r: String)
    ensures
        r@ == "pre-autoload-dump script exited with code "@ + signed_decimal(exit_code as int),
{
    "pre-autoload-dump script exited with code ".to_owned().concat(signed(exit_code).as_str())
}

/// What is said once the loader was dumped.
pub fn dump_report(optimize: bool, authoritative: bool) -> (r: &'static str)
    ensures
        r@ == if optimize || authoritative {
            "Generated optimized autoload files"@
        } else {
            "Generated autoload files"@
        },
{
    if optimize || authoritative {
        "Generated optimized autoload files"
    } else {
        "Generated autoload files"
    }
}

// ---------------------------------------------------------------------------
// What is said of an update and of an install
// ---------------------------------------------------------------------------
/// How many packages changed, where any did or the lock file did; `None` where there was
/// nothing to update.
pub fn update_report(installed: u64, updated: u64, lock_changed: bool) -> (r: Option<String>)
    requires
        installed + updated <= u64::MAX,
    ensures
        r.is_some() == (installed > 0 || updated > 0 || lock_changed),
        r matches Some(t) ==> t@ == decimal((installed + updated) as nat) + " packages updated"@,
{
    let total: u64 = installed + updated;
    if total > 0 || lock_changed {
        Some(number(total).concat(" packages updated"))
    } else {
        None
    }
}

/// What is said of the lock file, where nothing but that was to be updated.
pub fn lock_report(changed: bool) -> (r: &'static str)
    ensures
        r@ == if changed {
            "Lock file updated"@
        } else {
            "Lock file is up to date"@
        },
{
    if changed {
        "Lock file updated"
    } else {
        "Lock file is up to date"
    }
}

/// What is said of an install.
pub fn install_report(installed: u64) -> (r: String)
    ensures
        r@ == decimal(installed as nat) + " packages installed"@,
{
    number(installed).concat(" packages installed")
}

/// A dump ends well unless the scripts before it fail.
pub proof fn law_dump_fails_only_before(no_scripts: bool, last: Option<DumpStep>, exit_code: i32)
    requires
        dump_step(no_scripts, last, exit_code) is Fail,
        !(last matches Some(DumpStep::Fail { .. })),
    ensures
        last == Some(DumpStep::PreScripts),
        exit_code != 0,
{
}

} // verus!
