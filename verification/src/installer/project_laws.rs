//! What holds of the project itself, and of what is handed to the generator of the loader.
use vstd::prelude::*;

use crate::holding::lemma_one_more;
use crate::installer::autoloads::{installed_from, real_names, source_reference};
use crate::installer::root::{alias_of, root_version_of, with_own_version, RootSource};
use crate::installer::settle::{differs, required_names};
use crate::json::JsonView;
use crate::links::Pairs;
use crate::lock::{ComposerLock, LockedPackage};
use crate::names::{canonical, platform};
use crate::package::{dev_version, Package};

verus! {

proof fn lemma_real_names(s: Pairs, n: int, name: Seq<char>)
    requires
        0 <= n <= s.len(),
    ensures
        real_names(s, n).contains(name) <==> exists|i: int|
            0 <= i < n && (#[trigger] s[i]).0 == name && !platform(name),
    decreases n,
{
    if n > 0 {
        lemma_real_names(s, n - 1, name);
        lemma_one_more(real_names(s, n - 1), s[n - 1].0, name);
    }
}

/// The loader is told of every package that is required, but for the platform.
pub proof fn law_loader_knows_every_requirement(s: Pairs, name: Seq<char>)
    ensures
        real_names(s, s.len() as int).contains(name) <==> !platform(name) && exists|i: int|
            0 <= i < s.len() && (#[trigger] s[i]).0 == name,
{
    lemma_real_names(s, s.len() as int, name);
}

proof fn lemma_required_names(s: Pairs, n: int, name: Seq<char>)
    requires
        0 <= n <= s.len(),
    ensures
        required_names(s, n).contains(name) <==> exists|i: int|
            0 <= i < n && !platform((#[trigger] s[i]).0) && canonical(s[i].0) == name,
    decreases n,
{
    if n > 0 {
        lemma_required_names(s, n - 1, name);
    }
}

/// What the project requires for production is every package among its requirements, but for the
/// platform.
pub proof fn law_production_is_what_is_required(s: Pairs, name: Seq<char>)
    ensures
        required_names(s, s.len() as int).contains(name) <==> exists|i: int|
            0 <= i < s.len() && !platform((#[trigger] s[i]).0) && canonical(s[i].0) == name,
{
    lemma_required_names(s, s.len() as int, name);
}

/// The lock file is kept only where both lists have the same packages at the same versions, in the
/// same order.
pub proof fn law_any_other_package_changes_the_lock(
    lock: ComposerLock,
    prod: Seq<&Package>,
    dev: Seq<&Package>,
    i: int,
)
    requires
        !differs(Some(lock), prod, dev),
    ensures
        prod.len() == lock.packages@.len(),
        dev.len() == lock.packages_dev@.len(),
        0 <= i < prod.len() ==> prod[i].name@ == lock.packages@[i].name@ && prod[i].shown_version()
            == lock.packages@[i].version@,
        0 <= i < dev.len() ==> dev[i].name@ == lock.packages_dev@[i].name@ && dev[i].shown_version()
            == lock.packages_dev@[i].version@,
{
    let a = crate::installer::selection::identities(prod);
    let b = crate::installer::selection::locked_identities(lock.packages@);
    let c = crate::installer::selection::identities(dev);
    let d = crate::installer::selection::locked_identities(lock.packages_dev@);
    assert(a.len() == prod.len() && b.len() == lock.packages@.len());
    assert(c.len() == dev.len() && d.len() == lock.packages_dev@.len());
    if 0 <= i < prod.len() {
        assert(a[i] == (prod[i].name@, prod[i].shown_version()));
        assert(b[i] == (lock.packages@[i].name@, lock.packages@[i].version@));
    }
    if 0 <= i < dev.len() {
        assert(c[i] == (dev[i].name@, dev[i].shown_version()));
        assert(d[i] == (lock.packages_dev@[i].name@, lock.packages_dev@[i].version@));
    }
}

/// Without a lock file there is always one to write.
pub proof fn law_first_lock_is_written(prod: Seq<&Package>, dev: Seq<&Package>)
    ensures
        differs(None, prod, dev),
{
}

/// The version of the project is what the environment says, else what the manifest says, else what
/// the branch stands for.
pub proof fn law_environment_decides_on_the_version(
    environment: Option<Seq<char>>,
    manifest: Option<Seq<char>>,
    branch: Seq<char>,
    extra: JsonView,
)
    ensures
        environment matches Some(v) ==> root_version_of(environment, manifest, Some(branch), extra)
            == Some((v, RootSource::Environment)),
        environment is None ==> (manifest matches Some(v) ==> root_version_of(
            environment,
            manifest,
            Some(branch),
            extra,
        ) == Some((v, RootSource::Manifest))),
        environment is None && manifest is None ==> match alias_of(extra, "dev-"@ + branch) {
            Some(alias) => root_version_of(environment, manifest, Some(branch), extra) == Some(
                (alias, RootSource::BranchAlias),
            ),
            None => root_version_of(environment, manifest, Some(branch), extra) == Some(
                ("dev-"@ + branch, RootSource::Branch),
            ),
        },
        environment is None && manifest is None ==> root_version_of(
            environment,
            manifest,
            None,
            extra,
        ) is None,
{
}

/// A branch stands for another version exactly where the manifest says so.
pub proof fn law_alias_is_what_the_manifest_says(
    extra: JsonView,
    aliases: JsonView,
    version: Seq<char>,
    alias: Seq<char>,
)
    requires
        extra.field("branch-alias"@) == Some(aliases),
    ensures
        alias_of(extra, version) == Some(alias) <==> aliases.field(version) == Some(
            JsonView::Text(alias),
        ),
{
}

/// A link to the version of the project is one to the version it has; every other link stays.
pub proof fn law_own_version_is_filled_in(s: Pairs, version: Seq<char>, i: int)
    requires
        0 <= i < s.len(),
    ensures
        with_own_version(s, version).len() == s.len(),
        with_own_version(s, version)[i].0 == s[i].0,
        s[i].1 == "self.version"@ ==> with_own_version(s, version)[i].1 == version,
        s[i].1 != "self.version"@ ==> with_own_version(s, version)[i].1 == s[i].1,
{
}

/// A package counts as installed from its source where that was to be taken or nothing else is
/// there, and its reference is that of the source where it has one.
pub proof fn law_reference_of_a_locked_package(p: LockedPackage, prefer_source: bool)
    ensures
        p.source is Some && (dev_version(p.version@) || prefer_source || p.dist is None)
            ==> installed_from(p, prefer_source) == Some("source"@),
        p.dist is Some && (p.source is None || (!dev_version(p.version@) && !prefer_source))
            ==> installed_from(p, prefer_source) == Some("dist"@),
        p.source is None && p.dist is None ==> installed_from(p, prefer_source) is None,
        p.source matches Some(s) ==> source_reference(p) == Some(s.reference@),
        p.source is None ==> (p.dist matches Some(d) ==> match d.reference {
            Some(r) => source_reference(p) == Some(r@),
            None => source_reference(p) is None,
        }),
{
}

} // verus!
