//! What holds of the commands that look at what is there: everything that counts is looked at.
use vstd::prelude::*;

use crate::commands::audit::{
    abandoned_of, audited, audited_of, behavior, found, found_of, hits, is_hit,
    law_every_hit_is_reported, reported, version_of, Advisories, SecurityAdvisory,
};
use crate::commands::check_platform_reqs::{
    all_asked, all_offers, asked_by, asked_by_packages, asked_of, dev_names, grouped, is_asked,
    kept_installed, lower_names, lower_texts, offered_by, offered_by_packages,
    offered_by_platform, offers_for, requirement_views, CandidateView, PackageMetadata,
    Requirement, RequirementView,
};
use crate::holding::lemma_plus;
use crate::json::JsonView;
use crate::links::{links, Pairs};
use crate::lock::{ComposerLock, LockedPackage};
use crate::names::{canonical, platform};
use crate::package::Package;
use crate::schema::ComposerJson;
use crate::sorted::names_of;
use crate::text::lowercase;

verus! {

// ---------------------------------------------------------------------------
// The audit
// ---------------------------------------------------------------------------
proof fn lemma_audited_of(packages: Seq<LockedPackage>, installed: Option<Set<Seq<char>>>, n: int, e: LockedPackage)
    requires
        0 <= n <= packages.len(),
    ensures
        audited_of(packages, n, installed).contains(e) <==> exists|k: int| 0 <= k < n && (#[trigger] packages[k]) == e && (installed is None || installed->0.contains(canonical(packages[k].name@))),
    decreases n,
{
    if n > 0 {
        lemma_audited_of(packages, installed, n - 1, e);
        let t = audited_of(packages, n - 1, installed);
        let r = audited_of(packages, n, installed);
        if r.contains(e) {
            let i = choose|i: int| 0 <= i < r.len() && r[i] == e;
            if i < t.len() {
                assert(t[i] == e);
                let k = choose|k: int| 0 <= k < n - 1 && (#[trigger] packages[k]) == e && (installed is None || installed->0.contains(canonical(packages[k].name@)));
                assert(packages[k] == e);
            } else {
                assert(packages[n - 1] == e);
            }
        }
        if exists|k: int| 0 <= k < n && (#[trigger] packages[k]) == e && (installed is None || installed->0.contains(canonical(packages[k].name@))) {
            let k = choose|k: int| 0 <= k < n && (#[trigger] packages[k]) == e && (installed is None || installed->0.contains(canonical(packages[k].name@)));
            if k == n - 1 {
                assert(r[t.len() as int] == e);
            } else {
                assert(packages[k] == e);
                let i = choose|i: int| 0 <= i < t.len() && t[i] == e;
                assert(r[i] == e);
            }
        }
    }
}

/// A package is audited exactly where it is locked for production, or for development and those
/// are not left out, and either nothing is known of what is installed or it is installed.
pub proof fn law_every_locked_package_is_audited(
    lock: ComposerLock,
    no_dev: bool,
    installed: Option<Set<Seq<char>>>,
    p: LockedPackage,
)
    ensures
        audited(lock, no_dev, installed).contains(p) <==> (lock.packages@.contains(p) || (!no_dev
            && lock.packages_dev@.contains(p))) && (installed is None || installed->0.contains(
            canonical(p.name@),
        )),
{
    let a = audited_of(lock.packages@, lock.packages@.len() as int, installed);
    let b = audited_of(lock.packages_dev@, lock.packages_dev@.len() as int, installed);
    lemma_plus(a, b, p);
    lemma_audited_of(lock.packages@, installed, lock.packages@.len() as int, p);
    lemma_audited_of(lock.packages_dev@, installed, lock.packages_dev@.len() as int, p);
    if lock.packages@.contains(p) {
        let k = choose|k: int| 0 <= k < lock.packages@.len() && lock.packages@[k] == p;
        assert(lock.packages@[k] == p);
    }
    if lock.packages_dev@.contains(p) {
        let k = choose|k: int| 0 <= k < lock.packages_dev@.len() && lock.packages_dev@[k] == p;
        assert(lock.packages_dev@[k] == p);
    }
}

/// No package is left out of an audit, and none is audited more often than it is locked.
pub proof fn law_audited_packages_are_counted_once(
    lock: ComposerLock,
    no_dev: bool,
)
    ensures
        audited(lock, no_dev, None) == if no_dev {
            lock.packages@
        } else {
            lock.packages@ + lock.packages_dev@
        },
{
    lemma_all_audited(lock.packages@, lock.packages@.len() as int);
    lemma_all_audited(lock.packages_dev@, lock.packages_dev@.len() as int);
    assert(lock.packages@.take(lock.packages@.len() as int) =~= lock.packages@);
    assert(lock.packages_dev@.take(lock.packages_dev@.len() as int) =~= lock.packages_dev@);
}

proof fn lemma_all_audited(packages: Seq<LockedPackage>, n: int)
    requires
        0 <= n <= packages.len(),
    ensures
        audited_of(packages, n, None) == packages.take(n),
    decreases n,
{
    if n > 0 {
        lemma_all_audited(packages, n - 1);
        assert(packages.take(n) =~= packages.take(n - 1).push(packages[n - 1]));
    } else {
        assert(packages.take(0) =~= Seq::empty());
    }
}

proof fn lemma_abandoned_of(packages: Seq<LockedPackage>, n: int, e: LockedPackage)
    requires
        0 <= n <= packages.len(),
    ensures
        abandoned_of(packages, n).contains(e) <==> exists|k: int| 0 <= k < n && (#[trigger] packages[k]) == e && (packages[k].abandoned@ == JsonView::Bool(true) || packages[k].abandoned@ is Text),
    decreases n,
{
    if n > 0 {
        lemma_abandoned_of(packages, n - 1, e);
        let t = abandoned_of(packages, n - 1);
        let r = abandoned_of(packages, n);
        if r.contains(e) {
            let i = choose|i: int| 0 <= i < r.len() && r[i] == e;
            if i < t.len() {
                assert(t[i] == e);
                let k = choose|k: int| 0 <= k < n - 1 && (#[trigger] packages[k]) == e && (packages[k].abandoned@ == JsonView::Bool(true) || packages[k].abandoned@ is Text);
                assert(packages[k] == e);
            } else {
                assert(packages[n - 1] == e);
            }
        }
        if exists|k: int| 0 <= k < n && (#[trigger] packages[k]) == e && (packages[k].abandoned@ == JsonView::Bool(true) || packages[k].abandoned@ is Text) {
            let k = choose|k: int| 0 <= k < n && (#[trigger] packages[k]) == e && (packages[k].abandoned@ == JsonView::Bool(true) || packages[k].abandoned@ is Text);
            if k == n - 1 {
                assert(r[t.len() as int] == e);
            } else {
                assert(packages[k] == e);
                let i = choose|i: int| 0 <= i < t.len() && t[i] == e;
                assert(r[i] == e);
            }
        }
    }
}

/// A package is reported as abandoned exactly where it is audited and marked so, by a truth value
/// or by the name of another, unless abandoned packages are ignored.
pub proof fn law_abandoned_packages_are_reported(
    packages: Seq<LockedPackage>,
    asked: Option<String>,
    p: LockedPackage,
)
    ensures
        reported(packages, asked).contains(p) <==> packages.contains(p) && (p.abandoned@
            == JsonView::Bool(true) || p.abandoned@ is Text) && !(asked matches Some(s) && s@
            == "ignore"@),
{
    reveal_strlit("fail");
    reveal_strlit("ignore");
    assert("fail"@.len() != "ignore"@.len());
    lemma_abandoned_of(packages, packages.len() as int, p);
    if packages.contains(p) {
        let k = choose|k: int| 0 <= k < packages.len() && packages[k] == p;
        assert(packages[k] == p);
    }
}

/// Abandoned packages are held against the project exactly where there are any and nothing else was
/// asked for.
pub proof fn law_failing_on_abandoned_packages(packages: Seq<LockedPackage>, asked: Option<String>)
    ensures
        reported(packages, asked).len() > 0 && behavior(asked) == "fail"@ <==> (asked is None
            || asked->0@ == "fail"@) && exists|k: int|
            0 <= k < packages.len() && ((#[trigger] packages[k]).abandoned@ == JsonView::Bool(true)
                || packages[k].abandoned@ is Text),
{
    reveal_strlit("fail");
    reveal_strlit("ignore");
    assert("fail"@.len() != "ignore"@.len());
    let found = reported(packages, asked);
    if found.len() > 0 {
        law_abandoned_packages_are_reported(packages, asked, found[0]);
        assert(found.contains(found[0]));
        let k = choose|k: int| 0 <= k < packages.len() && packages[k] == found[0];
        assert(packages[k] == found[0]);
    }
    if exists|k: int|
        0 <= k < packages.len() && ((#[trigger] packages[k]).abandoned@ == JsonView::Bool(true)
            || packages[k].abandoned@ is Text) {
        let k = choose|k: int|
            0 <= k < packages.len() && ((#[trigger] packages[k]).abandoned@ == JsonView::Bool(true)
                || packages[k].abandoned@ is Text);
        assert(packages.contains(packages[k]));
        law_abandoned_packages_are_reported(packages, asked, packages[k]);
    }
}

/// Something is found exactly where an advisory affects the version of an audited package.
pub proof fn law_audit_fails_on_hits(
    known: Advisories,
    packages: Seq<LockedPackage>,
    affected: Seq<Option<Vec<bool>>>,
)
    ensures
        found(known, packages, affected).len() > 0 <==> exists|i: int, m: int|
            #[trigger] is_hit(known.entries@, affected, i, m) && exists|k: int|
                0 <= k < packages.len() && (#[trigger] packages[k]).name@ == known.entries@[i].0@,
{
    let n = known.entries@.len() as int;
    if exists|i: int, m: int|
        #[trigger] is_hit(known.entries@, affected, i, m) && exists|k: int|
            0 <= k < packages.len() && (#[trigger] packages[k]).name@ == known.entries@[i].0@ {
        let (i, m) = choose|i: int, m: int|
            #[trigger] is_hit(known.entries@, affected, i, m) && exists|k: int|
                0 <= k < packages.len() && (#[trigger] packages[k]).name@ == known.entries@[i].0@;
        lemma_version_of(packages, known.entries@[i].0@);
        law_every_hit_is_reported(known.entries@, packages, affected, n, i, m);
    }
    lemma_found_has_hit(known.entries@, packages, affected, n);
}

proof fn lemma_found_has_hit(
    known: Seq<(String, Vec<SecurityAdvisory>)>,
    packages: Seq<LockedPackage>,
    affected: Seq<Option<Vec<bool>>>,
    n: int,
)
    requires
        0 <= n <= known.len(),
    ensures
        found_of(known, packages, affected, n).len() > 0 ==> exists|i: int, m: int|
            #[trigger] is_hit(known, affected, i, m) && exists|k: int|
                0 <= k < packages.len() && (#[trigger] packages[k]).name@ == known[i].0@,
    decreases n,
{
    if n > 0 {
        lemma_found_has_hit(known, packages, affected, n - 1);
        let t = found_of(known, packages, affected, n - 1);
        if found_of(known, packages, affected, n).len() > t.len() {
            let list = known[n - 1].1@;
            let a = affected[n - 1]->0@;
            lemma_version_of(packages, known[n - 1].0@);
            lemma_hit_behind(list, a, list.len() as int);
            let m = choose|m: int| 0 <= m < list.len() && m < a.len() && #[trigger] a[m];
            assert(is_hit(known, affected, n - 1, m));
        }
    }
}

proof fn lemma_hit_behind(list: Seq<SecurityAdvisory>, affected: Seq<bool>, n: int)
    requires
        0 <= n <= list.len(),
    ensures
        hits(list, affected, n).len() > 0 ==> exists|m: int|
            0 <= m < n && m < affected.len() && #[trigger] affected[m],
    decreases n,
{
    if n > 0 {
        lemma_hit_behind(list, affected, n - 1);
        if n <= affected.len() && affected[n - 1] {
            assert(affected[n - 1]);
        }
    }
}

proof fn lemma_version_of(packages: Seq<LockedPackage>, name: Seq<char>)
    ensures
        version_of(packages, name) is Some <==> exists|k: int|
            0 <= k < packages.len() && (#[trigger] packages[k]).name@ == name,
        version_of(packages, name) matches Some(v) ==> exists|k: int|
            0 <= k < packages.len() && (#[trigger] packages[k]).name@ == name && packages[k].version@
                == v,
    decreases packages.len(),
{
    if packages.len() > 0 {
        let head = packages.drop_last();
        lemma_version_of(head, name);
        if packages.last().name@ == name {
            assert(packages[packages.len() - 1].name@ == name);
        } else {
            if exists|k: int| 0 <= k < packages.len() && (#[trigger] packages[k]).name@ == name {
                let k = choose|k: int|
                    0 <= k < packages.len() && (#[trigger] packages[k]).name@ == name;
                assert(head[k].name@ == name);
            }
            if version_of(head, name) is Some {
                let k = choose|k: int|
                    0 <= k < head.len() && (#[trigger] head[k]).name@ == name && head[k].version@
                        == version_of(head, name)->0;
                assert(packages[k].name@ == name);
            }
        }
    }
}

/// The version that advisories are held against is that of an audited package of the name; there
/// is one exactly where such a package is audited.
pub proof fn law_versions_are_those_of_the_packages(packages: Seq<LockedPackage>, name: Seq<char>)
    ensures
        version_of(packages, name) is Some <==> exists|k: int|
            0 <= k < packages.len() && (#[trigger] packages[k]).name@ == name,
        version_of(packages, name) matches Some(v) ==> exists|k: int|
            0 <= k < packages.len() && (#[trigger] packages[k]).name@ == name && packages[k].version@
                == v,
{
    lemma_version_of(packages, name);
}

// ---------------------------------------------------------------------------
// The platform
// ---------------------------------------------------------------------------
/// The candidate for a link of a package: under the name of the link in lower case, with the
/// constraint of the link, where `self.version` stands for the version of the package.
pub open spec fn candidate_for(name: Seq<char>, version: Seq<char>, link: (Seq<char>, Seq<char>))
    -> (Seq<char>, CandidateView) {
    (
        lowercase(link.0),
        CandidateView {
            package_name: name,
            provided: true,
            version: if link.1 == "self.version"@ {
                "="@ + version
            } else {
                link.1
            },
        },
    )
}

proof fn lemma_offered_by(
    name: Seq<char>,
    version: Seq<char>,
    l: Pairs,
    e: (Seq<char>, CandidateView),
)
    ensures
        offered_by(name, version, l).contains(e) <==> exists|j: int|
            0 <= j < l.len() && candidate_for(name, version, #[trigger] l[j]) == e,
{
    let r = offered_by(name, version, l);
    assert forall|j: int| 0 <= j < l.len() implies r[j] == candidate_for(
        name,
        version,
        #[trigger] l[j],
    ) by {}
    if r.contains(e) {
        let j = choose|j: int| 0 <= j < r.len() && r[j] == e;
        assert(candidate_for(name, version, l[j]) == e);
    }
    if exists|j: int| 0 <= j < l.len() && candidate_for(name, version, #[trigger] l[j]) == e {
        let j = choose|j: int| 0 <= j < l.len() && candidate_for(name, version, #[trigger] l[j]) == e;
        assert(r[j] == e);
    }
}

proof fn lemma_offered_by_packages(
    packages: Seq<PackageMetadata>,
    n: int,
    e: (Seq<char>, CandidateView),
)
    requires
        0 <= n <= packages.len(),
    ensures
        offered_by_packages(packages, n).contains(e) <==> exists|i: int|
            0 <= i < n && (offered_by(
                (#[trigger] packages[i]).name@,
                packages[i].version@,
                links(packages[i].provide),
            ).contains(e) || offered_by(
                packages[i].name@,
                packages[i].version@,
                links(packages[i].replace),
            ).contains(e)),
    decreases n,
{
    if n > 0 {
        lemma_offered_by_packages(packages, n - 1, e);
        let p = packages[n - 1];
        let a = offered_by_packages(packages, n - 1);
        let b = offered_by(p.name@, p.version@, links(p.provide));
        let c = offered_by(p.name@, p.version@, links(p.replace));
        lemma_plus(a, b, e);
        lemma_plus(a + b, c, e);
        assert(packages[n - 1] == p);
    }
}

/// Whatever a package provides or replaces, it is a candidate for: for every package and every
/// link of either kind there is a candidate under the name of the link in lower case.
pub proof fn law_packages_offer_what_they_provide(
    composer: ComposerJson,
    packages: Seq<PackageMetadata>,
    installed: Seq<Package>,
    i: int,
    j: int,
)
    requires
        0 <= i < packages.len(),
    ensures
        0 <= j < links(packages[i].provide).len() ==> all_offers(composer, packages, installed).contains(
            candidate_for(packages[i].name@, packages[i].version@, links(packages[i].provide)[j]),
        ),
        0 <= j < links(packages[i].replace).len() ==> all_offers(composer, packages, installed).contains(
            candidate_for(packages[i].name@, packages[i].version@, links(packages[i].replace)[j]),
        ),
{
    let p = packages[i];
    if 0 <= j < links(p.provide).len() {
        let e = candidate_for(p.name@, p.version@, links(p.provide)[j]);
        lemma_all_offers(composer, packages, installed, e);
        lemma_offered_by(p.name@, p.version@, links(p.provide), e);
        assert(packages[i] == p);
    }
    if 0 <= j < links(p.replace).len() {
        let e = candidate_for(p.name@, p.version@, links(p.replace)[j]);
        lemma_all_offers(composer, packages, installed, e);
        lemma_offered_by(p.name@, p.version@, links(p.replace), e);
        assert(packages[i] == p);
    }
}

/// What the project provides or replaces, it is a candidate for, and a platform package is one for
/// itself, with its version.
pub proof fn law_project_and_platform_are_candidates(
    composer: ComposerJson,
    packages: Seq<PackageMetadata>,
    installed: Seq<Package>,
    version: Seq<char>,
    j: int,
)
    requires
        composer.version matches Some(v) ==> v@ == version,
        composer.version is None ==> version == "dev-main"@,
    ensures
        0 <= j < links(composer.provide).len() ==> all_offers(composer, packages, installed).contains(
            candidate_for("__root__"@, version, links(composer.provide)[j]),
        ),
        0 <= j < links(composer.replace).len() ==> all_offers(composer, packages, installed).contains(
            candidate_for("__root__"@, version, links(composer.replace)[j]),
        ),
        0 <= j < installed.len() ==> all_offers(composer, packages, installed).contains(
            (
                installed[j].name@,
                CandidateView {
                    package_name: installed[j].name@,
                    provided: false,
                    version: installed[j].shown_version(),
                },
            ),
        ),
{
    if 0 <= j < links(composer.provide).len() {
        let e = candidate_for("__root__"@, version, links(composer.provide)[j]);
        lemma_all_offers(composer, packages, installed, e);
        lemma_offered_by("__root__"@, version, links(composer.provide), e);
    }
    if 0 <= j < links(composer.replace).len() {
        let e = candidate_for("__root__"@, version, links(composer.replace)[j]);
        lemma_all_offers(composer, packages, installed, e);
        lemma_offered_by("__root__"@, version, links(composer.replace), e);
    }
    if 0 <= j < installed.len() {
        let e = (
            installed[j].name@,
            CandidateView {
                package_name: installed[j].name@,
                provided: false,
                version: installed[j].shown_version(),
            },
        );
        lemma_all_offers(composer, packages, installed, e);
        assert(offered_by_platform(installed)[j] == e);
    }
}

proof fn lemma_all_offers(
    composer: ComposerJson,
    packages: Seq<PackageMetadata>,
    installed: Seq<Package>,
    e: (Seq<char>, CandidateView),
)
    ensures
        ({
            let version = match composer.version {
                Some(v) => v@,
                None => "dev-main"@,
            };
            all_offers(composer, packages, installed).contains(e) <==> offered_by_platform(
                installed,
            ).contains(e) || offered_by("__root__"@, version, links(composer.provide)).contains(e)
                || offered_by("__root__"@, version, links(composer.replace)).contains(e)
                || exists|i: int|
                0 <= i < packages.len() && (offered_by(
                    (#[trigger] packages[i]).name@,
                    packages[i].version@,
                    links(packages[i].provide),
                ).contains(e) || offered_by(
                    packages[i].name@,
                    packages[i].version@,
                    links(packages[i].replace),
                ).contains(e))
        }),
{
    let version = match composer.version {
        Some(v) => v@,
        None => "dev-main"@,
    };
    let a = offered_by_platform(installed);
    let b = offered_by("__root__"@, version, links(composer.provide));
    let c = offered_by("__root__"@, version, links(composer.replace));
    let d = offered_by_packages(packages, packages.len() as int);
    lemma_plus(a, b, e);
    lemma_plus(a + b, c, e);
    lemma_plus(a + b + c, d, e);
    lemma_offered_by_packages(packages, packages.len() as int, e);
}

/// There is no other candidate: each is a platform package, or stands for a link that the project
/// or a package provides or replaces.
pub proof fn law_every_candidate_is_offered(
    composer: ComposerJson,
    packages: Seq<PackageMetadata>,
    installed: Seq<Package>,
    e: (Seq<char>, CandidateView),
)
    requires
        all_offers(composer, packages, installed).contains(e),
    ensures
        e.1.provided ==> e.1.package_name == "__root__"@ || exists|i: int, j: int|
            0 <= i < packages.len() && ((0 <= j < links(packages[i].provide).len() && candidate_for(
                packages[i].name@,
                packages[i].version@,
                #[trigger] links(packages[i].provide)[j],
            ) == e) || (0 <= j < links(packages[i].replace).len() && candidate_for(
                packages[i].name@,
                packages[i].version@,
                links(packages[i].replace)[j],
            ) == e)),
        !e.1.provided ==> exists|k: int|
            0 <= k < installed.len() && (#[trigger] installed[k]).name@ == e.0 && e.1.version
                == installed[k].shown_version(),
{
    lemma_all_offers(composer, packages, installed, e);
    let version = match composer.version {
        Some(v) => v@,
        None => "dev-main"@,
    };
    lemma_offered_by("__root__"@, version, links(composer.provide), e);
    lemma_offered_by("__root__"@, version, links(composer.replace), e);
    let a = offered_by_platform(installed);
    if a.contains(e) {
        let k = choose|k: int| 0 <= k < a.len() && a[k] == e;
        assert(installed[k].name@ == e.0);
    } else if offered_by("__root__"@, version, links(composer.provide)).contains(e) || offered_by(
        "__root__"@,
        version,
        links(composer.replace),
    ).contains(e) {
    } else {
        let i = choose|i: int|
            0 <= i < packages.len() && (offered_by(
                (#[trigger] packages[i]).name@,
                packages[i].version@,
                links(packages[i].provide),
            ).contains(e) || offered_by(
                packages[i].name@,
                packages[i].version@,
                links(packages[i].replace),
            ).contains(e));
        let p = packages[i];
        lemma_offered_by(p.name@, p.version@, links(p.provide), e);
        lemma_offered_by(p.name@, p.version@, links(p.replace), e);
        if offered_by(p.name@, p.version@, links(p.provide)).contains(e) {
            let j = choose|j: int|
                0 <= j < links(p.provide).len() && candidate_for(
                    p.name@,
                    p.version@,
                    #[trigger] links(p.provide)[j],
                ) == e;
            assert(candidate_for(p.name@, p.version@, links(packages[i].provide)[j]) == e);
        } else {
            let j = choose|j: int|
                0 <= j < links(p.replace).len() && candidate_for(
                    p.name@,
                    p.version@,
                    #[trigger] links(p.replace)[j],
                ) == e;
            let x = links(packages[i].provide)[j];
            assert(candidate_for(p.name@, p.version@, links(packages[i].replace)[j]) == e);
        }
    }
}

proof fn lemma_offers_for(all: Seq<(Seq<char>, CandidateView)>, target: Seq<char>, n: int, e: CandidateView)
    requires
        0 <= n <= all.len(),
    ensures
        offers_for(all, target, n).contains(e) <==> exists|k: int| 0 <= k < n && (#[trigger] all[k]).1 == e && all[k].0 == target,
    decreases n,
{
    if n > 0 {
        lemma_offers_for(all, target, n - 1, e);
        let t = offers_for(all, target, n - 1);
        let r = offers_for(all, target, n);
        if r.contains(e) {
            let i = choose|i: int| 0 <= i < r.len() && r[i] == e;
            if i < t.len() {
                assert(t[i] == e);
                let k = choose|k: int| 0 <= k < n - 1 && (#[trigger] all[k]).1 == e && all[k].0 == target;
                assert(all[k].1 == e);
            } else {
                assert(all[n - 1].1 == e);
            }
        }
        if exists|k: int| 0 <= k < n && (#[trigger] all[k]).1 == e && all[k].0 == target {
            let k = choose|k: int| 0 <= k < n && (#[trigger] all[k]).1 == e && all[k].0 == target;
            if k == n - 1 {
                assert(r[t.len() as int] == e);
            } else {
                assert(all[k].1 == e);
                let i = choose|i: int| 0 <= i < t.len() && t[i] == e;
                assert(r[i] == e);
            }
        }
    }
}

/// The candidates for a target are all that are offered under its name.
pub proof fn law_all_candidates_count(
    all: Seq<(Seq<char>, CandidateView)>,
    target: Seq<char>,
    e: CandidateView,
)
    ensures
        offers_for(all, target, all.len() as int).contains(e) <==> all.contains((target, e)),
{
    lemma_offers_for(all, target, all.len() as int, e);
    if all.contains((target, e)) {
        let k = choose|k: int| 0 <= k < all.len() && all[k] == (target, e);
        assert(all[k].1 == e);
    }
    if offers_for(all, target, all.len() as int).contains(e) {
        let k = choose|k: int|
            0 <= k < all.len() && (#[trigger] all[k]).1 == e && all[k].0 == target;
        assert(all[k] == (target, e));
    }
}

proof fn lemma_asked_of(all: Seq<RequirementView>, target: Seq<char>, n: int, e: RequirementView)
    requires
        0 <= n <= all.len(),
    ensures
        asked_of(all, target, n).contains(e) <==> exists|k: int| 0 <= k < n && (#[trigger] all[k]) == e && all[k].target == target,
    decreases n,
{
    if n > 0 {
        lemma_asked_of(all, target, n - 1, e);
        let t = asked_of(all, target, n - 1);
        let r = asked_of(all, target, n);
        if r.contains(e) {
            let i = choose|i: int| 0 <= i < r.len() && r[i] == e;
            if i < t.len() {
                assert(t[i] == e);
                let k = choose|k: int| 0 <= k < n - 1 && (#[trigger] all[k]) == e && all[k].target == target;
                assert(all[k] == e);
            } else {
                assert(all[n - 1] == e);
            }
        }
        if exists|k: int| 0 <= k < n && (#[trigger] all[k]) == e && all[k].target == target {
            let k = choose|k: int| 0 <= k < n && (#[trigger] all[k]) == e && all[k].target == target;
            if k == n - 1 {
                assert(r[t.len() as int] == e);
            } else {
                assert(all[k] == e);
                let i = choose|i: int| 0 <= i < t.len() && t[i] == e;
                assert(r[i] == e);
            }
        }
    }
}

proof fn lemma_asked_by_packages(packages: Seq<PackageMetadata>, n: int, e: RequirementView)
    requires
        0 <= n <= packages.len(),
    ensures
        asked_by_packages(packages, n).contains(e) <==> exists|k: int| 0 <= k < n && asked_by((#[trigger] packages[k]).name@, "requires"@, links(packages[k].require)).contains(e),
    decreases n,
{
    if n > 0 {
        lemma_asked_by_packages(packages, n - 1, e);
        let t = asked_by_packages(packages, n - 1);
        let r = asked_by_packages(packages, n);
        let own = asked_by(packages[n - 1].name@, "requires"@, links(packages[n - 1].require));
        if r.contains(e) {
            let i = choose|i: int| 0 <= i < r.len() && r[i] == e;
            if i < t.len() {
                assert(t[i] == e);
                let k = choose|k: int| 0 <= k < n - 1 && asked_by((#[trigger] packages[k]).name@, "requires"@, links(packages[k].require)).contains(e);
                assert(asked_by(packages[k].name@, "requires"@, links(packages[k].require)).contains(e));
            } else {
                assert(own[i - t.len()] == e);
                assert(asked_by(packages[n - 1].name@, "requires"@, links(packages[n - 1].require)).contains(e));
            }
        }
        if exists|k: int| 0 <= k < n && asked_by((#[trigger] packages[k]).name@, "requires"@, links(packages[k].require)).contains(e) {
            let k = choose|k: int| 0 <= k < n && asked_by((#[trigger] packages[k]).name@, "requires"@, links(packages[k].require)).contains(e);
            if k == n - 1 {
                let i = choose|i: int| 0 <= i < own.len() && own[i] == e;
                assert(r[t.len() + i] == e);
            } else {
                assert(asked_by(packages[k].name@, "requires"@, links(packages[k].require)).contains(e));
                let i = choose|i: int| 0 <= i < t.len() && t[i] == e;
                assert(r[i] == e);
            }
        }
    }
}

proof fn lemma_asked_by(source: Seq<char>, kind: Seq<char>, l: Pairs, e: RequirementView)
    ensures
        asked_by(source, kind, l).contains(e) <==> e.source == source && e.kind == kind && exists|
            j: int,
        |
            0 <= j < l.len() && lowercase((#[trigger] l[j]).0) == e.target && l[j].1
                == e.constraint,
{
    let r = asked_by(source, kind, l);
    if r.contains(e) {
        let j = choose|j: int| 0 <= j < r.len() && r[j] == e;
        assert(lowercase(l[j].0) == e.target);
    }
    if e.source == source && e.kind == kind && exists|j: int|
        0 <= j < l.len() && lowercase((#[trigger] l[j]).0) == e.target && l[j].1 == e.constraint {
        let j = choose|j: int|
            0 <= j < l.len() && lowercase((#[trigger] l[j]).0) == e.target && l[j].1
                == e.constraint;
        assert(r[j] == e);
    }
}

/// Whatever the project or a package asks of the platform is checked, under its name in lower
/// case, with who asks and with its constraint; what the project asks for development is, unless
/// that is left out. Nothing else is checked.
pub proof fn law_every_platform_requirement_is_checked(
    groups: Seq<(String, Vec<Requirement>)>,
    composer: ComposerJson,
    packages: Seq<PackageMetadata>,
    no_dev: bool,
    e: RequirementView,
)
    requires
        grouped(groups, all_asked(composer, packages, no_dev)),
    ensures
        (exists|g: int|
            0 <= g < groups.len() && (#[trigger] groups[g]).0@ == e.target && requirement_views(
                groups[g].1@,
            ).contains(e)) <==> platform(e.target) && ((e.source == "__root__"@ && e.kind
            == "requires"@ && exists|j: int|
            0 <= j < links(composer.require).len() && lowercase(
                (#[trigger] links(composer.require)[j]).0,
            ) == e.target && links(composer.require)[j].1 == e.constraint) || (!no_dev && e.source
            == "__root__"@ && e.kind == "requires (for development)"@ && exists|j: int|
            0 <= j < links(composer.require_dev).len() && lowercase(
                (#[trigger] links(composer.require_dev)[j]).0,
            ) == e.target && links(composer.require_dev)[j].1 == e.constraint) || exists|
            i: int,
            j: int,
        |
            0 <= i < packages.len() && 0 <= j < links(packages[i].require).len() && e.source
                == packages[i].name@ && e.kind == "requires"@ && lowercase(
                (#[trigger] links(packages[i].require)[j]).0,
            ) == e.target && links(packages[i].require)[j].1 == e.constraint),
{
    let all = all_asked(composer, packages, no_dev);
    let a = asked_by("__root__"@, "requires"@, links(composer.require));
    let b = if no_dev {
        Seq::empty()
    } else {
        asked_by("__root__"@, "requires (for development)"@, links(composer.require_dev))
    };
    let c = asked_by_packages(packages, packages.len() as int);
    lemma_plus(a, b, e);
    lemma_plus(a + b, c, e);
    lemma_asked_by("__root__"@, "requires"@, links(composer.require), e);
    lemma_asked_by("__root__"@, "requires (for development)"@, links(composer.require_dev), e);
    lemma_asked_by_packages(packages, packages.len() as int, e);
    assert forall|i: int| 0 <= i < packages.len() implies (asked_by(
        packages[i].name@,
        "requires"@,
        links(packages[i].require),
    ).contains(e) <==> exists|j: int|
        0 <= j < links(packages[i].require).len() && e.source == (#[trigger] packages[i]).name@
            && e.kind == "requires"@ && lowercase((#[trigger] links(packages[i].require)[j]).0)
            == e.target && links(packages[i].require)[j].1 == e.constraint) by {
        lemma_asked_by(packages[i].name@, "requires"@, links(packages[i].require), e);
    }
    lemma_asked_of(all, e.target, all.len() as int, e);
    if all.contains(e) && platform(e.target) {
        let k = choose|k: int| 0 <= k < all.len() && all[k] == e;
        assert(all[k].target == e.target);
        assert(is_asked(all, e.target));
        assert(names_of(groups).contains(e.target));
        let g = choose|g: int| 0 <= g < names_of(groups).len() && names_of(groups)[g] == e.target;
        assert(groups[g].0@ == e.target);
        assert(requirement_views(groups[g].1@).contains(e));
    }
    if exists|g: int|
        0 <= g < groups.len() && (#[trigger] groups[g]).0@ == e.target && requirement_views(
            groups[g].1@,
        ).contains(e) {
        let g = choose|g: int|
            0 <= g < groups.len() && (#[trigger] groups[g]).0@ == e.target && requirement_views(
                groups[g].1@,
            ).contains(e);
        assert(names_of(groups)[g] == e.target);
        assert(names_of(groups).contains(e.target));
        let k = choose|k: int| 0 <= k < all.len() && (#[trigger] all[k]) == e && all[k].target == e.target;
        assert(all.contains(e));
    }
}

proof fn lemma_lower_texts(items: Seq<JsonView>, n: int, name: Seq<char>)
    requires
        0 <= n <= items.len(),
    ensures
        lower_texts(items, n).contains(name) <==> exists|k: int|
            0 <= k < n && (#[trigger] items[k] matches JsonView::Text(t) && lowercase(t) == name),
    decreases n,
{
    if n > 0 {
        lemma_lower_texts(items, n - 1, name);
    }
}

proof fn lemma_lower_names(packages: Seq<LockedPackage>, n: int, name: Seq<char>)
    requires
        0 <= n <= packages.len(),
    ensures
        lower_names(packages, n).contains(name) <==> exists|k: int|
            0 <= k < n && lowercase((#[trigger] packages[k]).name@) == name,
    decreases n,
{
    if n > 0 {
        lemma_lower_names(packages, n - 1, name);
    }
}

/// The packages for development are those that the list of installed packages names, whatever the
/// case; where it has no such names, those that the lock file has for development.
pub proof fn law_development_names(
    installed: Option<JsonView>,
    lock: Option<ComposerLock>,
    name: Seq<char>,
)
    ensures
        installed matches Some(j) ==> (j.field("dev-package-names"@) matches Some(JsonView::Array(items))
            ==> (dev_names(installed, lock).contains(name) <==> exists|k: int|
            0 <= k < items.len() && (#[trigger] items[k] matches JsonView::Text(t) && lowercase(t)
                == name))),
        !(installed matches Some(j) && j.field("dev-package-names"@) matches Some(JsonView::Array(_)))
            ==> (dev_names(installed, lock).contains(name) <==> (lock matches Some(l) && exists|
            k: int,
        |
            0 <= k < l.packages_dev@.len() && lowercase((#[trigger] l.packages_dev@[k]).name@)
                == name)),
{
    if let Some(j) = installed {
        if let Some(JsonView::Array(items)) = j.field("dev-package-names"@) {
            lemma_lower_texts(items, items.len() as int, name);
        }
    }
    if let Some(l) = lock {
        lemma_lower_names(l.packages_dev@, l.packages_dev@.len() as int, name);
    }
}

proof fn lemma_kept_installed(installed: Seq<Package>, dev: Set<Seq<char>>, n: int, e: Package)
    requires
        0 <= n <= installed.len(),
    ensures
        kept_installed(installed, dev, n).contains(e) <==> exists|k: int| 0 <= k < n && (#[trigger] installed[k]) == e && !dev.contains(installed[k].name@),
    decreases n,
{
    if n > 0 {
        lemma_kept_installed(installed, dev, n - 1, e);
        let t = kept_installed(installed, dev, n - 1);
        let r = kept_installed(installed, dev, n);
        if r.contains(e) {
            let i = choose|i: int| 0 <= i < r.len() && r[i] == e;
            if i < t.len() {
                assert(t[i] == e);
                let k = choose|k: int| 0 <= k < n - 1 && (#[trigger] installed[k]) == e && !dev.contains(installed[k].name@);
                assert(installed[k] == e);
            } else {
                assert(installed[n - 1] == e);
            }
        }
        if exists|k: int| 0 <= k < n && (#[trigger] installed[k]) == e && !dev.contains(installed[k].name@) {
            let k = choose|k: int| 0 <= k < n && (#[trigger] installed[k]) == e && !dev.contains(installed[k].name@);
            if k == n - 1 {
                assert(r[t.len() as int] == e);
            } else {
                assert(installed[k] == e);
                let i = choose|i: int| 0 <= i < t.len() && t[i] == e;
                assert(r[i] == e);
            }
        }
    }
}

/// An installed package counts unless it is one for development.
pub proof fn law_installed_packages_count(installed: Seq<Package>, dev: Set<Seq<char>>, p: Package)
    ensures
        kept_installed(installed, dev, installed.len() as int).contains(p) <==> installed.contains(
            p,
        ) && !dev.contains(p.name@),
{
    lemma_kept_installed(installed, dev, installed.len() as int, p);
    if installed.contains(p) {
        let k = choose|k: int| 0 <= k < installed.len() && installed[k] == p;
        assert(installed[k] == p);
    }
}

} // verus!
