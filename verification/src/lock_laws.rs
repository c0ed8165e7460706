//! What holds where two lock files are held to be the same, and of the packages that are looked up.
use vstd::prelude::*;

use crate::json::{entries_meaning, meaning, JsonView};
use crate::links::links;
use crate::lock::{flags_view, opt, position, ComposerLock, LockAutoload, LockedPackage};
use crate::named_values::named_values;
use crate::text::{lowercase, views};

verus! {

/// Classes or files are loaded.
pub open spec fn loads(a: LockAutoload) -> bool {
    named_values(a.psr4).len() > 0 || named_values(a.psr0).len() > 0 || a.classmap@.len() > 0
        || a.files@.len() > 0
}

proof fn lemma_same_set<T>(a: Seq<T>, b: Seq<T>, e: T)
    requires
        a.to_set() == b.to_set(),
    ensures
        a.contains(e) == b.contains(e),
{
    assert(a.to_set().contains(e) == a.contains(e));
    assert(b.to_set().contains(e) == b.contains(e));
}

/// Two packages are held to be the same only where every field of theirs is: only the order of
/// links, and what is not written anyway, does not count.
pub proof fn law_same_package_means_same_fields(
    a: LockedPackage,
    b: LockedPackage,
    e: (Seq<char>, Seq<char>),
    k: int,
)
    requires
        a.written() == b.written(),
    ensures
        a.name@ == b.name@,
        a.version@ == b.version@,
        (a.source is Some) == (b.source is Some),
        a.source is Some ==> a.source->0.source_type@ == b.source->0.source_type@ && a.source->0.url@ == b.source->0.url@ && a.source->0.reference@ == b.source->0.reference@,
        (a.dist is Some) == (b.dist is Some),
        a.dist is Some ==> a.dist->0.dist_type@ == b.dist->0.dist_type@ && a.dist->0.url@ == b.dist->0.url@ && opt(a.dist->0.reference) == opt(b.dist->0.reference),
        a.dist is Some && a.dist->0.shasum is Some && b.dist->0.shasum is Some ==> a.dist->0.shasum->0@ == b.dist->0.shasum->0@,
        links(a.require).contains(e) == links(b.require).contains(e),
        links(a.conflict).contains(e) == links(b.conflict).contains(e),
        links(a.provide).contains(e) == links(b.provide).contains(e),
        links(a.replace).contains(e) == links(b.replace).contains(e),
        links(a.require_dev).contains(e) == links(b.require_dev).contains(e),
        links(a.suggest).contains(e) == links(b.suggest).contains(e),
        links(a.support).contains(e) == links(b.support).contains(e),
        views(a.bin@) == views(b.bin@),
        views(a.license@) == views(b.license@),
        views(a.keywords@) == views(b.keywords@),
        a.package_type@ == b.package_type@,
        opt(a.notification_url) == opt(b.notification_url),
        opt(a.time) == opt(b.time),
        opt(a.installation_source) == opt(b.installation_source),
        a.description is Some && a.description->0@.len() > 0 ==> b.description is Some && b.description->0@ == a.description->0@,
        a.homepage is Some && a.homepage->0@.len() > 0 ==> b.homepage is Some && b.homepage->0@ == a.homepage->0@,
        a.default_branch == b.default_branch,
        a.authors@.len() == b.authors@.len(),
        a.funding@.len() == b.funding@.len(),
        0 <= k < a.authors@.len() ==> a.authors@[k].name@ == b.authors@[k].name@ && opt(a.authors@[k].email) == opt(b.authors@[k].email) && opt(a.authors@[k].homepage) == opt(b.authors@[k].homepage) && opt(a.authors@[k].role) == opt(b.authors@[k].role),
        0 <= k < a.funding@.len() ==> a.funding@[k].url@ == b.funding@[k].url@ && a.funding@[k].funding_type@ == b.funding@[k].funding_type@,
        (a.archive is Some) == (b.archive is Some),
        a.archive is Some ==> opt(a.archive->0.name) == opt(b.archive->0.name) && views(a.archive->0.exclude@) == views(b.archive->0.exclude@),
        (a.extra is Some) == (b.extra is Some),
        a.extra is Some ==> meaning(a.extra->0@) == meaning(b.extra->0@),
        (a.transport_options is Some) == (b.transport_options is Some),
        a.transport_options is Some ==> meaning(a.transport_options->0@) == meaning(b.transport_options->0@),
        !(a.abandoned@ is Null) && a.abandoned@ != JsonView::Bool(false) ==> meaning(a.abandoned@) == meaning(b.abandoned@),
        loads(a.autoload) == loads(b.autoload),
        loads(a.autoload) ==> views(a.autoload.classmap@) == views(b.autoload.classmap@) && views(a.autoload.files@) == views(b.autoload.files@) && views(a.autoload.exclude_from_classmap@) == views(b.autoload.exclude_from_classmap@) && entries_meaning(named_values(a.autoload.psr4)) == entries_meaning(named_values(b.autoload.psr4)) && entries_meaning(named_values(a.autoload.psr0)) == entries_meaning(named_values(b.autoload.psr0)),
        loads(a.autoload_dev) == loads(b.autoload_dev),
        loads(a.autoload_dev) ==> views(a.autoload_dev.classmap@) == views(b.autoload_dev.classmap@) && views(a.autoload_dev.files@) == views(b.autoload_dev.files@) && views(a.autoload_dev.exclude_from_classmap@) == views(b.autoload_dev.exclude_from_classmap@) && entries_meaning(named_values(a.autoload_dev.psr4)) == entries_meaning(named_values(b.autoload_dev.psr4)) && entries_meaning(named_values(a.autoload_dev.psr0)) == entries_meaning(named_values(b.autoload_dev.psr0)),
{
    let x = a.written();
    let y = b.written();
    lemma_same_set(links(a.require), links(b.require), e);
    lemma_same_set(links(a.conflict), links(b.conflict), e);
    lemma_same_set(links(a.provide), links(b.provide), e);
    lemma_same_set(links(a.replace), links(b.replace), e);
    lemma_same_set(links(a.require_dev), links(b.require_dev), e);
    lemma_same_set(links(a.suggest), links(b.suggest), e);
    lemma_same_set(links(a.support), links(b.support), e);
    assert(x.authors.len() == y.authors.len());
    assert(x.funding.len() == y.funding.len());
    if 0 <= k < a.authors@.len() {
        assert(x.authors[k] == y.authors[k]);
    }
    if 0 <= k < a.funding@.len() {
        assert(x.funding[k] == y.funding[k]);
    }
}

/// Two lock files are held to be the same only where every field of theirs is.
pub proof fn law_same_lock_means_same_fields(
    a: ComposerLock,
    b: ComposerLock,
    e: (Seq<char>, Seq<char>),
    f: (Seq<char>, u8),
    k: int,
)
    requires
        a.written() == b.written(),
    ensures
        views(a.readme@) == views(b.readme@),
        a.content_hash@ == b.content_hash@,
        a.packages@.len() == b.packages@.len(),
        a.packages_dev@.len() == b.packages_dev@.len(),
        0 <= k < a.packages@.len() ==> a.packages@[k].written() == b.packages@[k].written(),
        0 <= k < a.packages_dev@.len() ==> a.packages_dev@[k].written() == b.packages_dev@[k].written(),
        a.aliases@.len() == b.aliases@.len(),
        0 <= k < a.aliases@.len() ==> a.aliases@[k].package@ == b.aliases@[k].package@ && a.aliases@[k].version@ == b.aliases@[k].version@ && a.aliases@[k].alias@ == b.aliases@[k].alias@ && a.aliases@[k].alias_normalized@ == b.aliases@[k].alias_normalized@,
        a.minimum_stability@ == b.minimum_stability@,
        flags_view(a.stability_flags@).contains(f) == flags_view(b.stability_flags@).contains(f),
        a.prefer_stable == b.prefer_stable,
        a.prefer_lowest == b.prefer_lowest,
        links(a.platform).contains(e) == links(b.platform).contains(e),
        links(a.platform_dev).contains(e) == links(b.platform_dev).contains(e),
        links(a.platform_overrides).contains(e) == links(b.platform_overrides).contains(e),
        a.plugin_api_version@ == b.plugin_api_version@,
{
    let x = a.written();
    let y = b.written();
    assert(x.packages.len() == a.packages@.len() && y.packages.len() == b.packages@.len());
    assert(x.packages_dev.len() == a.packages_dev@.len() && y.packages_dev.len()
        == b.packages_dev@.len());
    assert(x.packages_dev.len() == y.packages_dev.len());
    assert(x.aliases.len() == a.aliases@.len() && y.aliases.len() == b.aliases@.len());
    if 0 <= k < a.packages@.len() {
        assert(x.packages[k] == a.packages@[k].written() && y.packages[k] == b.packages@[k].written());
    }
    if 0 <= k < a.packages_dev@.len() {
        assert(x.packages_dev[k] == a.packages_dev@[k].written() && y.packages_dev[k]
            == b.packages_dev@[k].written());
    }
    if 0 <= k < a.aliases@.len() {
        assert(x.aliases[k] == a.aliases@[k]@ && y.aliases[k] == b.aliases@[k]@);
    }
    lemma_same_set(flags_view(a.stability_flags@), flags_view(b.stability_flags@), f);
    lemma_same_set(links(a.platform), links(b.platform), e);
    lemma_same_set(links(a.platform_dev), links(b.platform_dev), e);
    lemma_same_set(links(a.platform_overrides), links(b.platform_overrides), e);
}

/// A lock file has the packages for production and those for development, and no others.
pub proof fn law_lock_has_both_lists(lock: ComposerLock, p: LockedPackage)
    ensures
        lock.all().contains(p) <==> lock.packages@.contains(p) || lock.packages_dev@.contains(p),
{
    crate::holding::lemma_plus(lock.packages@, lock.packages_dev@, p);
}

/// A package is found exactly where one has the name, whatever the case of the letters, and it is
/// the first of these.
pub proof fn law_package_is_found_by_its_name(packages: Seq<LockedPackage>, name: Seq<char>)
    ensures
        0 <= position(packages, name) <= packages.len(),
        position(packages, name) < packages.len() <==> exists|i: int|
            0 <= i < packages.len() && lowercase((#[trigger] packages[i]).name@) == lowercase(name),
        position(packages, name) < packages.len() ==> lowercase(
            packages[position(packages, name)].name@,
        ) == lowercase(name),
        forall|i: int|
            0 <= i < position(packages, name) ==> lowercase((#[trigger] packages[i]).name@)
                != lowercase(name),
    decreases packages.len(),
{
    if packages.len() > 0 && lowercase(packages[0].name@) != lowercase(name) {
        let rest = packages.drop_first();
        law_package_is_found_by_its_name(rest, name);
        assert forall|i: int| 0 <= i < position(packages, name) implies lowercase(
            (#[trigger] packages[i]).name@,
        ) != lowercase(name) by {
            if i > 0 {
                assert(packages[i] == rest[i - 1]);
            }
        }
        if position(rest, name) < rest.len() {
            assert(rest[position(rest, name)] == packages[position(packages, name)]);
        }
    }
}

} // verus!
