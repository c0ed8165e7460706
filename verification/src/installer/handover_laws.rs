//! What holds of what is handed over: from the lock file to the generator of the loader, and from
//! the builder to the installer.
use vstd::prelude::*;

use crate::autoload::types::PackageAutoload;
use crate::composer::ComposerBuilder;
use crate::config::settings::PreferredInstall;
use crate::installer::operations::{user_cache_of, InstallConfig};
use crate::installer::report::{all_taken, dump_step, is_taken, DumpStep};
use crate::links::links;
use crate::lock::{ComposerLock, LockAlias, LockedPackage};
use crate::paths::joined_path;

verus! {

/// Every locked package is handed over, with its name, its version, its type and its links: those
/// for production first, and those for development behind them where these are wanted.
pub proof fn law_every_locked_package_is_handed_over(
    r: Seq<PackageAutoload>,
    lock: ComposerLock,
    dev_mode: bool,
    aliases: Seq<LockAlias>,
    prefer_source: bool,
    normalized: Seq<Option<String>>,
    i: int,
)
    requires
        all_taken(r, lock, dev_mode, aliases, prefer_source, normalized),
    ensures
        dev_mode ==> r.len() == lock.packages@.len() + lock.packages_dev@.len(),
        !dev_mode ==> r.len() == lock.packages@.len(),
        0 <= i < lock.packages@.len() ==> !r[i].dev_requirement && is_handed(
            r[i],
            lock.packages@[i],
        ),
        dev_mode && 0 <= i < lock.packages_dev@.len() ==> r[lock.packages@.len()
            + i].dev_requirement && is_handed(
            r[lock.packages@.len() + i],
            lock.packages_dev@[i],
        ),
{
    let all = lock.packages@ + lock.packages_dev@;
    let n = lock.packages@.len() as int;
    if 0 <= i < n {
        assert(all[i] == lock.packages@[i]);
        assert(is_taken(r[i], all[i], i >= n, aliases, prefer_source, normalized[i]));
    }
    if dev_mode && 0 <= i < lock.packages_dev@.len() {
        assert(all[n + i] == lock.packages_dev@[i]);
        assert(is_taken(r[n + i], all[n + i], n + i >= n, aliases, prefer_source, normalized[n + i]));
    }
}

/// The package is handed over with what the lock file has of it.
pub open spec fn is_handed(r: PackageAutoload, p: LockedPackage) -> bool {
    &&& r.name@ == p.name@
    &&& r.install_path@ == p.name@
    &&& r.package_type@ == p.package_type@
    &&& r.pretty_version is Some && r.pretty_version->0@ == p.version@
    &&& links(r.replaces) == links(p.replace)
    &&& links(r.provides) == links(p.provide)
    &&& r.locked_package is Some && r.locked_package->0.name@ == p.name@
}

/// A dump of the loader runs the scripts before it, dumps, runs the scripts after it and says so; a
/// dump without scripts runs none.
pub proof fn law_dump_leaves_nothing_out(exit_code: i32)
    ensures
        dump_step(false, None, 0) == DumpStep::PreScripts,
        dump_step(false, Some(DumpStep::PreScripts), 0) == DumpStep::Dump,
        exit_code != 0 ==> dump_step(false, Some(DumpStep::PreScripts), exit_code) == (
        DumpStep::Fail { exit_code }),
        dump_step(false, Some(DumpStep::Dump), exit_code) == DumpStep::PostScripts,
        dump_step(false, Some(DumpStep::PostScripts), exit_code) == DumpStep::Report,
        dump_step(true, None, exit_code) == DumpStep::Dump,
        dump_step(true, Some(DumpStep::Dump), exit_code) == DumpStep::Report,
        forall|s: bool| #[trigger] dump_step(s, Some(DumpStep::Report), exit_code) == DumpStep::Finish,
{
}

/// The installer works in the directory of the project, with the switches that were set; the cache
/// is the one that is configured, else one in the project.
pub proof fn law_installer_is_set_up_as_asked(
    b: ComposerBuilder,
    vendor: Seq<char>,
    bin: Seq<char>,
    cache: Option<Seq<char>>,
    configured: PreferredInstall,
    c: InstallConfig,
)
    requires
        b.installs(vendor, bin, cache, configured, c),
    ensures
        c.dry_run == b.dry_run,
        c.no_dev == b.no_dev,
        c.prefer_lowest == b.prefer_lowest,
        c.vendor_dir@ == joined_path(b.working_dir@, vendor),
        c.bin_dir@ == joined_path(b.working_dir@, bin),
        cache matches Some(d) ==> c.cache_dir@ == d,
        cache is None ==> c.cache_dir@ == joined_path(b.working_dir@, ".composer-rs/cache"@),
        b.prefer_source is Some ==> c.prefer_source == b.prefer_source->0,
        b.prefer_dist is Some ==> c.prefer_dist == b.prefer_dist->0,
        b.prefer_source is Some && b.prefer_dist is None ==> c.prefer_dist == !c.prefer_source,
        b.prefer_source is None && b.prefer_dist is Some ==> c.prefer_source == !c.prefer_dist,
        b.prefer_source is None && b.prefer_dist is None ==> c.prefer_source == (configured
            is Source) && c.prefer_dist == !(configured is Source),
{
}

/// The caches of the user are where the variable says, else below the home directory.
pub proof fn law_user_cache(xdg: Option<Seq<char>>, home: Option<Seq<char>>)
    ensures
        xdg matches Some(d) ==> user_cache_of(xdg, home) == Some(joined_path(d, "composer"@)),
        xdg is None ==> (home matches Some(h) ==> user_cache_of(xdg, home) == Some(
            joined_path(joined_path(h, ".cache"@), "composer"@),
        )),
        xdg is None && home is None ==> user_cache_of(xdg, home) is None,
{
}

} // verus!
