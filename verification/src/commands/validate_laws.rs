//! What holds of the report on a manifest: everything that is wrong is said, and every requirement
//! is held against all that may meet it.
use vstd::prelude::*;

use crate::autoload::file_laws::{lemma_parts, lemma_within};
use crate::commands::validate::{
    candidates_of, code_of, complaint, complaints, counts, hints, is_unmet, link_to, listed,
    lock_problems, lock_trouble, locked_candidates, manifests_of, report_err, requirement_info,
    section, verdict_err, with_linked, Answers, Demands, LockCandidateView,
};
use crate::holding::{lemma_infix_plus, lemma_one_more, lemma_plus};
use crate::json::JsonView;
use crate::links::{links, Pairs};
use crate::lock::{ComposerLock, LockedPackage};
use crate::names::platform;
use crate::paths::joined_path;
use crate::schema::ComposerJson;
use crate::text::{ascii_lower, has_infix};

verus! {

proof fn lemma_listed(t: Seq<char>, mark: Seq<char>, list: Seq<Seq<char>>, n: int, k: int)
    requires
        0 <= n <= list.len(),
    ensures
        has_infix(listed(t, mark, list, n), t),
        0 <= k < n ==> has_infix(listed(t, mark, list, n), mark + list[k] + "\n"@),
    decreases n,
{
    let r = listed(t, mark, list, n);
    lemma_infix_plus(t, t, t);
    if n > 0 {
        lemma_listed(t, mark, list, n - 1, k);
        let u = listed(t, mark, list, n - 1);
        let line = mark + list[n - 1] + "\n"@;
        assert(r =~= u + line);
        lemma_parts(u, line);
        lemma_within(r, u, t);
        if 0 <= k < n - 1 {
            lemma_within(r, u, mark + list[k] + "\n"@);
        }
    }
}

proof fn lemma_section(
    t: Seq<char>,
    heading: Seq<char>,
    mark: Seq<char>,
    list: Seq<Seq<char>>,
    k: int,
)
    ensures
        has_infix(section(t, heading, mark, list), t),
        0 <= k < list.len() ==> has_infix(
            section(t, heading, mark, list),
            mark + list[k] + "\n"@,
        ),
        list.len() > 0 ==> has_infix(section(t, heading, mark, list), heading),
{
    lemma_infix_plus(t, t, t);
    if list.len() > 0 {
        lemma_listed(t + heading, mark, list, list.len() as int, k);
        lemma_parts(t, heading);
        lemma_within(section(t, heading, mark, list), t + heading, t);
        lemma_within(section(t, heading, mark, list), t + heading, heading);
    }
}

/// Everything that is wrong is said: every error, every error that keeps a package from being
/// published where that counts, every warning, and everything that is wrong with the lock file.
pub proof fn law_everything_wrong_is_said(
    name: Seq<char>,
    errors: Seq<Seq<char>>,
    publish: Seq<Seq<char>>,
    warnings: Seq<Seq<char>>,
    lock: Seq<Seq<char>>,
    d: Demands,
    k: int,
)
    ensures
        0 <= k < errors.len() ==> has_infix(
            report_err(name, errors, publish, warnings, lock, d),
            "- "@ + errors[k] + "\n"@,
        ),
        0 <= k < publish.len() && d.check_publish ==> has_infix(
            report_err(name, errors, publish, warnings, lock, d),
            "- "@ + publish[k] + "\n"@,
        ),
        0 <= k < warnings.len() ==> has_infix(
            report_err(name, errors, publish, warnings, lock, d),
            "- "@ + warnings[k] + "\n"@,
        ),
        0 <= k < lock.len() ==> has_infix(
            report_err(name, errors, publish, warnings, lock, d),
            lock[k] + "\n"@,
        ),
        errors.len() > 0 ==> has_infix(
            report_err(name, errors, publish, warnings, lock, d),
            name + " is invalid, the following errors/warnings were found:\n"@,
        ),
{
    let whole = report_err(name, errors, publish, warnings, lock, d);
    let head = verdict_err(name, errors.len(), publish.len(), warnings.len(), d);
    let a = section(head, "# General errors\n"@, "- "@, errors);
    let b = if d.check_publish {
        section(a, "# Publish errors\n"@, "- "@, publish)
    } else {
        a
    };
    let c = section(b, "# General warnings\n"@, "- "@, warnings);
    let title = "# Lock file "@ + lock_trouble(d) + "\n"@;
    lemma_section(head, "# General errors\n"@, "- "@, errors, k);
    lemma_section(a, "# Publish errors\n"@, "- "@, publish, k);
    lemma_infix_plus(a, a, a);
    lemma_section(b, "# General warnings\n"@, "- "@, warnings, k);
    lemma_section(c, title, ""@, lock, k);
    lemma_within(whole, c, b);
    lemma_within(whole, b, a);
    lemma_within(whole, a, head);
    if 0 <= k < errors.len() {
        lemma_within(whole, a, "- "@ + errors[k] + "\n"@);
    }
    if 0 <= k < publish.len() && d.check_publish {
        lemma_within(whole, b, "- "@ + publish[k] + "\n"@);
    }
    if 0 <= k < warnings.len() {
        lemma_within(whole, c, "- "@ + warnings[k] + "\n"@);
    }
    if 0 <= k < lock.len() {
        reveal_strlit("");
        assert(""@ + lock[k] + "\n"@ =~= lock[k] + "\n"@);
    }
}

/// The command ends with zero exactly where nothing that counts is wrong: errors always count,
/// those of publishing and of the lock file where they are checked, and warnings where that was
/// asked for.
pub proof fn law_zero_means_nothing_wrong(
    errors: nat,
    publish: nat,
    warnings: nat,
    lock: nat,
    d: Demands,
)
    ensures
        code_of(errors, publish, warnings, lock, d) == 0 <==> errors == 0 && (d.check_publish
            ==> publish == 0) && (d.check_lock ==> lock == 0) && (d.strict ==> warnings == 0),
        code_of(errors, publish, warnings, lock, d) == 1 ==> warnings > 0 && errors == 0,
        0 <= code_of(errors, publish, warnings, lock, d) <= 2,
{
}

// ---------------------------------------------------------------------------
// The lock file
// ---------------------------------------------------------------------------
proof fn lemma_link_to(l: Pairs, target: Seq<char>, from: int)
    requires
        0 <= from <= l.len(),
    ensures
        from <= link_to(l, target, from) <= l.len(),
        link_to(l, target, from) < l.len() ==> ascii_lower(l[link_to(l, target, from)].0)
            == ascii_lower(target),
        forall|k: int|
            from <= k < link_to(l, target, from) ==> ascii_lower((#[trigger] l[k]).0)
                != ascii_lower(target),
    decreases l.len() - from,
{
    if from < l.len() && ascii_lower(l[from].0) != ascii_lower(target) {
        lemma_link_to(l, target, from + 1);
    }
}

/// The candidate that a package is for a link of its own.
pub open spec fn linked_candidate(
    name: Seq<char>,
    version: Seq<char>,
    link: (Seq<char>, Seq<char>),
    kind: Seq<char>,
) -> LockCandidateView {
    LockCandidateView {
        package_name: name,
        package_version: version,
        constraint: if link.1 == "self.version"@ {
            "="@ + version
        } else {
            link.1
        },
        provider_kind: Some(kind),
    }
}

proof fn lemma_with_linked(
    all: Seq<LockCandidateView>,
    target: Seq<char>,
    name: Seq<char>,
    version: Seq<char>,
    l: Pairs,
    kind: Seq<char>,
    e: LockCandidateView,
)
    ensures
        all.contains(e) ==> with_linked(all, target, name, version, l, kind).contains(e),
        with_linked(all, target, name, version, l, kind).contains(e) ==> all.contains(e) || exists|
            j: int,
        |
            0 <= j < l.len() && ascii_lower((#[trigger] l[j]).0) == ascii_lower(target)
                && linked_candidate(name, version, l[j], kind) == e,
        forall|j: int|
            0 <= j < l.len() && ascii_lower((#[trigger] l[j]).0) == ascii_lower(target) && (forall|
                i: int,
            | 0 <= i < j ==> ascii_lower((#[trigger] l[i]).0) != ascii_lower(target))
                ==> with_linked(all, target, name, version, l, kind).contains(
                linked_candidate(name, version, l[j], kind),
            ),
{
    lemma_link_to(l, target, 0);
    let at = link_to(l, target, 0);
    let r = with_linked(all, target, name, version, l, kind);
    if at < l.len() {
        let x = linked_candidate(name, version, l[at], kind);
        lemma_one_more(all, x, e);
        lemma_one_more(all, x, x);
        assert(r == all.push(x));
        if e == x {
            assert(ascii_lower(l[at].0) == ascii_lower(target));
        }
        assert forall|j: int|
            0 <= j < l.len() && ascii_lower((#[trigger] l[j]).0) == ascii_lower(target) && (forall|
                i: int,
            | 0 <= i < j ==> ascii_lower((#[trigger] l[i]).0) != ascii_lower(target)) implies r.contains(
            linked_candidate(name, version, l[j], kind),
        ) by {
            if j > at {
                assert(ascii_lower(l[at].0) != ascii_lower(target));
            }
            assert(j == at);
        }
    }
}

proof fn lemma_locked_candidates(
    target: Seq<char>,
    packages: Seq<LockedPackage>,
    n: int,
    i: int,
    e: LockCandidateView,
)
    requires
        0 <= i < n <= packages.len(),
        (ascii_lower(packages[i].name@) == ascii_lower(target) && e == (LockCandidateView {
            package_name: packages[i].name@,
            package_version: packages[i].version@,
            constraint: packages[i].version@,
            provider_kind: None,
        })) || (exists|j: int|
            0 <= j < links(packages[i].replace).len() && ascii_lower(
                (#[trigger] links(packages[i].replace)[j]).0,
            ) == ascii_lower(target) && (forall|k: int|
                0 <= k < j ==> ascii_lower((#[trigger] links(packages[i].replace)[k]).0)
                    != ascii_lower(target)) && e == linked_candidate(
                packages[i].name@,
                packages[i].version@,
                links(packages[i].replace)[j],
                "replaced"@,
            )) || (exists|j: int|
            0 <= j < links(packages[i].provide).len() && ascii_lower(
                (#[trigger] links(packages[i].provide)[j]).0,
            ) == ascii_lower(target) && (forall|k: int|
                0 <= k < j ==> ascii_lower((#[trigger] links(packages[i].provide)[k]).0)
                    != ascii_lower(target)) && e == linked_candidate(
                packages[i].name@,
                packages[i].version@,
                links(packages[i].provide)[j],
                "provided"@,
            )),
    ensures
        locked_candidates(target, packages, n).contains(e),
    decreases n,
{
    let p = packages[n - 1];
    let t = locked_candidates(target, packages, n - 1);
    let own = if ascii_lower(p.name@) == ascii_lower(target) {
        t.push(
            LockCandidateView {
                package_name: p.name@,
                package_version: p.version@,
                constraint: p.version@,
                provider_kind: None,
            },
        )
    } else {
        t
    };
    let mid = with_linked(own, target, p.name@, p.version@, links(p.replace), "replaced"@);
    lemma_with_linked(own, target, p.name@, p.version@, links(p.replace), "replaced"@, e);
    lemma_with_linked(mid, target, p.name@, p.version@, links(p.provide), "provided"@, e);
    lemma_one_more(
        t,
        LockCandidateView {
            package_name: p.name@,
            package_version: p.version@,
            constraint: p.version@,
            provider_kind: None,
        },
        e,
    );
    if i < n - 1 {
        lemma_locked_candidates(target, packages, n - 1, i, e);
    }
}

/// Every locked package of the name may meet a requirement, whatever the case of the letters, and
/// so may every one that replaces or provides the name.
pub proof fn law_locked_packages_may_meet(
    target: Seq<char>,
    packages: Seq<LockedPackage>,
    composer: ComposerJson,
    i: int,
    j: int,
)
    requires
        0 <= i < packages.len(),
    ensures
        ascii_lower(packages[i].name@) == ascii_lower(target) ==> candidates_of(
            target,
            packages,
            composer,
        ).contains(
            LockCandidateView {
                package_name: packages[i].name@,
                package_version: packages[i].version@,
                constraint: packages[i].version@,
                provider_kind: None,
            },
        ),
        0 <= j < links(packages[i].replace).len() && ascii_lower(links(packages[i].replace)[j].0)
            == ascii_lower(target) && (forall|k: int|
            0 <= k < j ==> ascii_lower((#[trigger] links(packages[i].replace)[k]).0) != ascii_lower(
                target,
            )) ==> candidates_of(target, packages, composer).contains(
            linked_candidate(
                packages[i].name@,
                packages[i].version@,
                links(packages[i].replace)[j],
                "replaced"@,
            ),
        ),
        0 <= j < links(packages[i].provide).len() && ascii_lower(links(packages[i].provide)[j].0)
            == ascii_lower(target) && (forall|k: int|
            0 <= k < j ==> ascii_lower((#[trigger] links(packages[i].provide)[k]).0) != ascii_lower(
                target,
            )) ==> candidates_of(target, packages, composer).contains(
            linked_candidate(
                packages[i].name@,
                packages[i].version@,
                links(packages[i].provide)[j],
                "provided"@,
            ),
        ),
{
    let n = packages.len() as int;
    let own = LockCandidateView {
        package_name: packages[i].name@,
        package_version: packages[i].version@,
        constraint: packages[i].version@,
        provider_kind: None,
    };
    if ascii_lower(packages[i].name@) == ascii_lower(target) {
        lemma_locked_candidates(target, packages, n, i, own);
        lemma_kept(target, packages, composer, own);
    }
    if 0 <= j < links(packages[i].replace).len() && ascii_lower(links(packages[i].replace)[j].0)
        == ascii_lower(target) && (forall|k: int|
        0 <= k < j ==> ascii_lower((#[trigger] links(packages[i].replace)[k]).0) != ascii_lower(
            target,
        )) {
        let e = linked_candidate(
            packages[i].name@,
            packages[i].version@,
            links(packages[i].replace)[j],
            "replaced"@,
        );
        lemma_locked_candidates(target, packages, n, i, e);
        lemma_kept(target, packages, composer, e);
    }
    if 0 <= j < links(packages[i].provide).len() && ascii_lower(links(packages[i].provide)[j].0)
        == ascii_lower(target) && (forall|k: int|
        0 <= k < j ==> ascii_lower((#[trigger] links(packages[i].provide)[k]).0) != ascii_lower(
            target,
        )) {
        let e = linked_candidate(
            packages[i].name@,
            packages[i].version@,
            links(packages[i].provide)[j],
            "provided"@,
        );
        lemma_locked_candidates(target, packages, n, i, e);
        lemma_kept(target, packages, composer, e);
    }
}

proof fn lemma_kept(
    target: Seq<char>,
    packages: Seq<LockedPackage>,
    composer: ComposerJson,
    e: LockCandidateView,
)
    requires
        locked_candidates(target, packages, packages.len() as int).contains(e),
    ensures
        candidates_of(target, packages, composer).contains(e),
{
    let name = match composer.name {
        Some(n) => n@,
        None => "__root__"@,
    };
    let version = match composer.version {
        Some(v) => v@,
        None => "1.0.0"@,
    };
    let a = locked_candidates(target, packages, packages.len() as int);
    lemma_with_linked(a, target, name, version, links(composer.replace), "replaced"@, e);
    let b = with_linked(a, target, name, version, links(composer.replace), "replaced"@);
    lemma_with_linked(b, target, name, version, links(composer.provide), "provided"@, e);
}

/// The project may meet a requirement by what it replaces or provides itself.
pub proof fn law_project_may_meet(
    target: Seq<char>,
    packages: Seq<LockedPackage>,
    composer: ComposerJson,
    name: Seq<char>,
    version: Seq<char>,
    j: int,
)
    requires
        composer.name matches Some(n) ==> n@ == name,
        composer.name is None ==> name == "__root__"@,
        composer.version matches Some(v) ==> v@ == version,
        composer.version is None ==> version == "1.0.0"@,
    ensures
        0 <= j < links(composer.replace).len() && ascii_lower(links(composer.replace)[j].0)
            == ascii_lower(target) && (forall|k: int|
            0 <= k < j ==> ascii_lower((#[trigger] links(composer.replace)[k]).0) != ascii_lower(
                target,
            )) ==> candidates_of(target, packages, composer).contains(
            linked_candidate(name, version, links(composer.replace)[j], "replaced"@),
        ),
        0 <= j < links(composer.provide).len() && ascii_lower(links(composer.provide)[j].0)
            == ascii_lower(target) && (forall|k: int|
            0 <= k < j ==> ascii_lower((#[trigger] links(composer.provide)[k]).0) != ascii_lower(
                target,
            )) ==> candidates_of(target, packages, composer).contains(
            linked_candidate(name, version, links(composer.provide)[j], "provided"@),
        ),
{
    let a = locked_candidates(target, packages, packages.len() as int);
    let x = linked_candidate(name, version, links(composer.replace)[j], "replaced"@);
    let y = linked_candidate(name, version, links(composer.provide)[j], "provided"@);
    lemma_with_linked(a, target, name, version, links(composer.replace), "replaced"@, x);
    let b = with_linked(a, target, name, version, links(composer.replace), "replaced"@);
    lemma_with_linked(b, target, name, version, links(composer.provide), "provided"@, x);
    lemma_with_linked(b, target, name, version, links(composer.provide), "provided"@, y);
}

proof fn lemma_complaints(
    description: Seq<char>,
    l: Pairs,
    packages: Seq<LockedPackage>,
    composer: ComposerJson,
    answers: Seq<Answers>,
    n: int,
    i: int,
)
    requires
        0 <= i < n <= l.len(),
        answers.len() == l.len(),
        is_unmet(l[i], packages, composer, answers[i]),
    ensures
        complaints(description, l, packages, composer, answers, n).contains(
            complaint(description, l[i], candidates_of(l[i].0, packages, composer)),
        ),
    decreases n,
{
    let t = complaints(description, l, packages, composer, answers, n - 1);
    let e = complaint(description, l[i], candidates_of(l[i].0, packages, composer));
    let x = complaint(description, l[n - 1], candidates_of(l[n - 1].0, packages, composer));
    lemma_one_more(t, x, e);
    if i < n - 1 {
        lemma_complaints(description, l, packages, composer, answers, n - 1, i);
    }
}

/// A requirement of the manifest that no candidate meets is complained of by its name: one for
/// production against the packages for production, one for development against all packages.
/// Requirements on the platform, on the own version and with a constraint that cannot be read do
/// not count. A lock file with another hash, or with none, is told to be out of date.
pub proof fn law_unmet_requirements_are_told(
    composer: ComposerJson,
    lock: ComposerLock,
    hash: Seq<char>,
    answers: Seq<Answers>,
    dev_answers: Seq<Answers>,
    i: int,
)
    requires
        answers.len() == links(composer.require).len(),
        dev_answers.len() == links(composer.require_dev).len(),
    ensures
        0 <= i < answers.len() && !platform(links(composer.require)[i].0)
            && links(composer.require)[i].1 != "self.version"@ && (answers[i] matches Some(a)
            && forall|k: int| 0 <= k < a@.len() ==> !#[trigger] a@[k]) ==> exists|m: int|
            0 <= m < lock_problems(composer, lock, hash, answers, dev_answers).len() && has_infix(
                #[trigger] lock_problems(composer, lock, hash, answers, dev_answers)[m],
                "- Required package \""@ + links(composer.require)[i].0 + "\" is "@,
            ),
        0 <= i < dev_answers.len() && !platform(links(composer.require_dev)[i].0)
            && links(composer.require_dev)[i].1 != "self.version"@ && (dev_answers[i] matches Some(a)
            && forall|k: int| 0 <= k < a@.len() ==> !#[trigger] a@[k]) ==> exists|m: int|
            0 <= m < lock_problems(composer, lock, hash, answers, dev_answers).len() && has_infix(
                #[trigger] lock_problems(composer, lock, hash, answers, dev_answers)[m],
                "- Required (in require-dev) package \""@ + links(composer.require_dev)[i].0
                    + "\" is "@,
            ),
        lock.content_hash@ != hash || lock.content_hash@.len() == 0 ==> exists|m: int|
            0 <= m < lock_problems(composer, lock, hash, answers, dev_answers).len() && has_infix(
                #[trigger] lock_problems(composer, lock, hash, answers, dev_answers)[m],
                "The lock file is not up to date with the latest changes in composer.json"@,
            ),
{
    let all = lock_problems(composer, lock, hash, answers, dev_answers);
    let info = requirement_info(composer, lock, answers, dev_answers);
    let a = complaints(
        "Required"@,
        links(composer.require),
        lock.packages@,
        composer,
        answers,
        links(composer.require).len() as int,
    );
    let b = complaints(
        "Required (in require-dev)"@,
        links(composer.require_dev),
        lock.packages@ + lock.packages_dev@,
        composer,
        dev_answers,
        links(composer.require_dev).len() as int,
    );
    let stale = all.take(all.len() - info.len());
    assert(all =~= stale + info);
    if 0 <= i < answers.len() && !platform(links(composer.require)[i].0)
        && links(composer.require)[i].1 != "self.version"@ && (answers[i] matches Some(x)
        && forall|k: int| 0 <= k < x@.len() ==> !#[trigger] x@[k]) {
        let l = links(composer.require);
        assert(is_unmet(l[i], lock.packages@, composer, answers[i]));
        lemma_complaints(
            "Required"@,
            l,
            lock.packages@,
            composer,
            answers,
            l.len() as int,
            i,
        );
        let e = complaint("Required"@, l[i], candidates_of(l[i].0, lock.packages@, composer));
        lemma_complaint_names("Required"@, l[i], candidates_of(l[i].0, lock.packages@, composer));
        lemma_plus(a, b, e);
        lemma_plus(a + b, hints(), e);
        lemma_plus(stale, info, e);
        let m = choose|m: int| 0 <= m < all.len() && all[m] == e;
        reveal_strlit("- ");
        reveal_strlit("Required");
        reveal_strlit(" package \"");
        reveal_strlit("- Required package \"");
        assert("- "@ + "Required"@ + " package \""@ =~= "- Required package \""@);
        assert(has_infix(all[m], "- Required package \""@ + l[i].0 + "\" is "@));
    }
    if 0 <= i < dev_answers.len() && !platform(links(composer.require_dev)[i].0)
        && links(composer.require_dev)[i].1 != "self.version"@ && (dev_answers[i] matches Some(x)
        && forall|k: int| 0 <= k < x@.len() ==> !#[trigger] x@[k]) {
        let l = links(composer.require_dev);
        let p = lock.packages@ + lock.packages_dev@;
        assert(is_unmet(l[i], p, composer, dev_answers[i]));
        lemma_complaints(
            "Required (in require-dev)"@,
            l,
            p,
            composer,
            dev_answers,
            l.len() as int,
            i,
        );
        let e = complaint("Required (in require-dev)"@, l[i], candidates_of(l[i].0, p, composer));
        lemma_complaint_names(
            "Required (in require-dev)"@,
            l[i],
            candidates_of(l[i].0, p, composer),
        );
        lemma_plus(a, b, e);
        lemma_plus(a + b, hints(), e);
        lemma_plus(stale, info, e);
        let m = choose|m: int| 0 <= m < all.len() && all[m] == e;
        reveal_strlit("- ");
        reveal_strlit("Required (in require-dev)");
        reveal_strlit(" package \"");
        reveal_strlit("- Required (in require-dev) package \"");
        assert("- "@ + "Required (in require-dev)"@ + " package \""@
            =~= "- Required (in require-dev) package \""@);
        assert(has_infix(
            all[m],
            "- Required (in require-dev) package \""@ + l[i].0 + "\" is "@,
        ));
    }
    if lock.content_hash@ != hash || lock.content_hash@.len() == 0 {
        let told =
            "- The lock file is not up to date with the latest changes in composer.json, it is recommended that you run `composer update` or `composer update <package name>`."@;
        assert(all[0] == told);
        reveal_strlit(
            "- The lock file is not up to date with the latest changes in composer.json, it is recommended that you run `composer update` or `composer update <package name>`.",
        );
        reveal_strlit("The lock file is not up to date with the latest changes in composer.json");
        let x = "The lock file is not up to date with the latest changes in composer.json"@;
        assert(told.subrange(2, 2 + x.len() as int) =~= x);
        assert(crate::text::occurs_at(told, x, 2));
        assert(has_infix(all[0], x));
    }
}

proof fn lemma_complaint_names(
    description: Seq<char>,
    link: (Seq<char>, Seq<char>),
    candidates: Seq<LockCandidateView>,
)
    ensures
        has_infix(
            complaint(description, link, candidates),
            "- "@ + description + " package \""@ + link.0 + "\" is "@,
        ),
{
    let start = "- "@ + description + " package \""@ + link.0;
    let x = start + "\" is "@;
    let c = complaint(description, link, candidates);
    reveal_strlit("\" is ");
    reveal_strlit("\" is in the lock file as \"");
    reveal_strlit("\" is not present in the lock file.");
    assert(c.subrange(0, x.len() as int) =~= x);
    assert(crate::text::occurs_at(c, x, 0));
}

proof fn lemma_manifests(packages: Seq<JsonView>, dir: Seq<char>, n: int, i: int)
    requires
        0 <= i < n <= packages.len(),
    ensures
        packages[i].field("install-path"@) matches Some(JsonView::Text(p)) ==> manifests_of(
            packages,
            dir,
            n,
        ).contains(
            joined_path(crate::commands::validate::led_to(dir, p), "composer.json"@),
        ),
    decreases n,
{
    if let Some(JsonView::Text(p)) = packages[i].field("install-path"@) {
        let e = joined_path(crate::commands::validate::led_to(dir, p), "composer.json"@);
        let t = manifests_of(packages, dir, n - 1);
        if i < n - 1 {
            lemma_manifests(packages, dir, n - 1, i);
        }
        if let Some(JsonView::Text(q)) = packages[n - 1].field("install-path"@) {
            lemma_one_more(
                t,
                joined_path(crate::commands::validate::led_to(dir, q), "composer.json"@),
                e,
            );
        }
    }
}

/// The manifest of every installed package that has a place is looked at.
pub proof fn law_every_dependency_is_looked_at(packages: Seq<JsonView>, dir: Seq<char>, i: int)
    requires
        0 <= i < packages.len(),
    ensures
        packages[i].field("install-path"@) matches Some(JsonView::Text(p)) ==> manifests_of(
            packages,
            dir,
            packages.len() as int,
        ).contains(
            joined_path(crate::commands::validate::led_to(dir, p), "composer.json"@),
        ),
{
    lemma_manifests(packages, dir, packages.len() as int, i);
}

} // verus!
