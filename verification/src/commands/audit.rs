//! The command `audit`: security advisories and abandoned packages.
use vstd::prelude::*;
use vstd::string::*;

use crate::commands::laws::{
    law_audit_fails_on_hits, law_every_locked_package_is_audited, law_failing_on_abandoned_packages,
};
use crate::error::{refuse, Refusal};
use crate::http::Duration;
use crate::json::{
    add_entry, copy_entries, entries_view, items_view, lemma_array_view, lemma_items_push,
    lemma_object_view, put, text, with_entry, Entries, Json, JsonView,
};
use crate::json_text::{pretty, print_pretty};
use crate::lock::{behind, opt, ComposerLock, LockedPackage};
use crate::names::{canonical, canonical_package_name, NameSet};
use crate::text::{decimal, number, str_equal};

verus! {

/// What the user asks of the command.
#[derive(Debug)]
pub struct AuditArgs {
    /// Leave packages for development out.
    pub no_dev: bool,
    /// `table`, `plain`, `json` or `summary`.
    pub format: String,
    /// Go by the lock file alone.
    pub locked: bool,
    /// What becomes of abandoned packages: `ignore`, `report` or `fail`.
    pub abandoned: Option<String>,
    pub working_dir: String,
}

/// A security advisory.
#[derive(Debug, Clone)]
pub struct SecurityAdvisory {
    pub advisory_id: String,
    pub package_name: String,
    pub title: String,
    pub cve: Option<String>,
    pub link: Option<String>,
    pub severity: Option<String>,
    pub affected_versions: String,
    pub reported_at: String,
    pub sources: Vec<AdvisorySource>,
}

/// Where an advisory comes from.
#[derive(Debug, Clone)]
pub struct AdvisorySource {
    pub name: String,
    pub remote_id: String,
}

/// Advisories by package.
#[derive(Debug)]
pub struct Advisories {
    pub entries: Vec<(String, Vec<SecurityAdvisory>)>,
}

// ---------------------------------------------------------------------------
// What is audited
// ---------------------------------------------------------------------------
/// The package is installed, or nothing is known of what is installed.
pub open spec fn is_audited(p: LockedPackage, installed: Option<Set<Seq<char>>>) -> bool {
    match installed {
        Some(names) => names.contains(canonical(p.name@)),
        None => true,
    }
}

/// The packages among the first `n` that are audited.
pub open spec fn audited_of(
    packages: Seq<LockedPackage>,
    n: int,
    installed: Option<Set<Seq<char>>>,
) -> Seq<LockedPackage>
    decreases n,
{
    if n <= 0 || n > packages.len() {
        Seq::empty()
    } else {
        let t = audited_of(packages, n - 1, installed);
        if is_audited(packages[n - 1], installed) {
            t.push(packages[n - 1])
        } else {
            t
        }
    }
}

/// The packages that are audited: those for production, and those for development
/// unless they are left out.
pub open spec fn audited(
    lock: ComposerLock,
    no_dev: bool,
    installed: Option<Set<Seq<char>>>,
) -> Seq<LockedPackage> {
    let prod = audited_of(lock.packages@, lock.packages@.len() as int, installed);
    if no_dev {
        prod
    } else {
        prod + audited_of(lock.packages_dev@, lock.packages_dev@.len() as int, installed)
    }
}

fn add_audited<'a>(
    out: &mut Vec<&'a LockedPackage>,
    packages: &'a Vec<LockedPackage>,
    installed: Option<&NameSet>,
)
    ensures
        behind(final(out)@) == behind(old(out)@) + audited_of(
            packages@,
            packages@.len() as int,
            match installed {
                Some(s) => Some(s@),
                None => None,
            },
        ),
{
    let ghost start = behind(out@);
    let ghost names = match installed {
        Some(s) => Some(s@),
        None => None,
    };
    let mut i: usize = 0;
    assert(start + audited_of(packages@, 0, names) =~= start);
    while i < packages.len()
        invariant
            i <= packages.len(),
            names == (match installed {
                Some(s) => Some(s@),
                None => None,
            }),
            behind(out@) == start + audited_of(packages@, i as int, names),
        decreases packages.len() - i,
    {
        let wanted = match installed {
            Some(s) => s.contains(canonical_package_name(packages[i].name.as_str()).as_str()),
            None => true,
        };
        let ghost before = behind(out@);
        if wanted {
            out.push(&packages[i]);
            assert(behind(out@) =~= before.push(packages@[i as int]));
        }
        i += 1;
        assert(behind(out@) =~= start + audited_of(packages@, i as int, names));
    }
}

/// The packages that are audited. `installed` names what is installed; without it the
/// lock file alone counts.
pub fn audited_packages<'a>(lock: &'a ComposerLock, no_dev: bool, installed: Option<&NameSet>)
    -> (r: Vec<&'a LockedPackage>)
    ensures
        behind(r@) == audited(
            *lock,
            no_dev,
            match installed {
                Some(s) => Some(s@),
                None => None,
            },
        ),
        forall|p: LockedPackage| #[trigger]
            behind(r@).contains(p) <==> (lock.packages@.contains(p) || (!no_dev
                && lock.packages_dev@.contains(p))) && (installed matches Some(names)
                ==> names@.contains(canonical(p.name@))),
{
    let mut out: Vec<&'a LockedPackage> = Vec::new();
    assert(behind(out@) =~= Seq::empty());
    add_audited(&mut out, &lock.packages, installed);
    assert(behind(out@) =~= audited_of(
        lock.packages@,
        lock.packages@.len() as int,
        match installed {
            Some(s) => Some(s@),
            None => None,
        },
    ));
    if !no_dev {
        add_audited(&mut out, &lock.packages_dev, installed);
    }
    proof {
        let names = match installed {
            Some(s) => Some(s@),
            None => None,
        };
        assert forall|p: LockedPackage| #[trigger] behind(out@).contains(p) <==> (
        lock.packages@.contains(p) || (!no_dev && lock.packages_dev@.contains(p))) && (
        installed matches Some(names) ==> names@.contains(canonical(p.name@))) by {
            law_every_locked_package_is_audited(*lock, no_dev, names, p);
        }
    }
    out
}

/// The version of a package: that of the last one with the name.
pub open spec fn version_of(packages: Seq<LockedPackage>, name: Seq<char>) -> Option<Seq<char>>
    decreases packages.len(),
{
    if packages.len() == 0 {
        None
    } else if packages.last().name@ == name {
        Some(packages.last().version@)
    } else {
        version_of(packages.drop_last(), name)
    }
}

/// The version of an audited package.
pub fn installed_version<'a>(packages: &[&'a LockedPackage], name: &str) -> (r: Option<&'a str>)
    ensures
        r.is_some() == version_of(behind(packages@), name@).is_some(),
        r matches Some(v) ==> v@ == version_of(behind(packages@), name@)->0,
{
    let ghost all = behind(packages@);
    let mut i: usize = packages.len();
    assert(all.take(i as int) =~= all);
    while i > 0
        invariant
            i <= packages.len(),
            all == behind(packages@),
            version_of(all, name@) == version_of(all.take(i as int), name@),
        decreases i,
    {
        proof {
            assert(all.take(i as int).last() == *packages@[i - 1]);
            assert(all.take(i as int).drop_last() =~= all.take(i - 1));
        }
        if str_equal(packages[i - 1].name.as_str(), name) {
            return Some(packages[i - 1].version.as_str());
        }
        i -= 1;
    }
    None
}

/// Advisories that are younger than ten minutes are not asked for again.
pub fn is_fresh(age: Option<Duration>) -> (r: bool)
    ensures
        r == (age matches Some(a) && a.nanos < 600000000000),
{
    match age {
        Some(a) => a.nanos < 600000000000,
        None => false,
    }
}

// ---------------------------------------------------------------------------
// What is found
// ---------------------------------------------------------------------------
/// The advisories among the first `n` whose versions are affected.
pub open spec fn hits(list: Seq<SecurityAdvisory>, affected: Seq<bool>, n: int) -> Seq<
    SecurityAdvisory,
>
    decreases n,
{
    if n <= 0 || n > list.len() {
        Seq::empty()
    } else {
        let t = hits(list, affected, n - 1);
        if n <= affected.len() && affected[n - 1] {
            t.push(list[n - 1])
        } else {
            t
        }
    }
}

/// A package and the advisories that affect it.
#[derive(Debug)]
pub struct Finding<'a> {
    pub package: &'a str,
    pub advisories: Vec<&'a SecurityAdvisory>,
}

/// What the references of a list stand for.
pub open spec fn advisories_behind(v: Seq<&SecurityAdvisory>) -> Seq<SecurityAdvisory> {
    v.map_values(|a: &SecurityAdvisory| *a)
}

/// What a list of findings says.
pub open spec fn findings_view(v: Seq<Finding<'_>>) -> Seq<(Seq<char>, Seq<SecurityAdvisory>)> {
    v.map_values(|f: Finding<'_>| (f.package@, advisories_behind(f.advisories@)))
}

/// What is found among the first `n` packages that advisories are known of. `affected`
/// tells for each advisory whether it affects the version of the package, `None` where
/// that version cannot be compared. Packages that are not audited do not count.
pub open spec fn found_of(
    known: Seq<(String, Vec<SecurityAdvisory>)>,
    packages: Seq<LockedPackage>,
    affected: Seq<Option<Vec<bool>>>,
    n: int,
) -> Seq<(Seq<char>, Seq<SecurityAdvisory>)>
    decreases n,
{
    if n <= 0 || n > known.len() {
        Seq::empty()
    } else {
        let t = found_of(known, packages, affected, n - 1);
        let name = known[n - 1].0@;
        let list = known[n - 1].1@;
        if version_of(packages, name) is None || n > affected.len() {
            t
        } else {
            match affected[n - 1] {
                Some(a) => {
                    let h = hits(list, a@, list.len() as int);
                    if h.len() > 0 {
                        t.push((name, h))
                    } else {
                        t
                    }
                },
                None => t,
            }
        }
    }
}

fn pick<'a>(list: &'a Vec<SecurityAdvisory>, affected: &Vec<bool>) -> (r: Vec<&'a SecurityAdvisory>)
    ensures
        advisories_behind(r@) == hits(list@, affected@, list@.len() as int),
{
    let mut out: Vec<&'a SecurityAdvisory> = Vec::new();
    let mut i: usize = 0;
    assert(advisories_behind(out@) =~= hits(list@, affected@, 0));
    while i < list.len()
        invariant
            i <= list.len(),
            advisories_behind(out@) == hits(list@, affected@, i as int),
        decreases list.len() - i,
    {
        let ghost before = advisories_behind(out@);
        if i < affected.len() && affected[i] {
            out.push(&list[i]);
            assert(advisories_behind(out@) =~= before.push(list@[i as int]));
        }
        i += 1;
    }
    out
}

/// What is found.
pub fn matching_advisories<'a>(
    known: &'a Advisories,
    packages: &[&LockedPackage],
    affected: &Vec<Option<Vec<bool>>>,
) -> (r: Vec<Finding<'a>>)
    ensures
        findings_view(r@) == found_of(
            known.entries@,
            behind(packages@),
            affected@,
            known.entries@.len() as int,
        ),
{
    let mut out: Vec<Finding<'a>> = Vec::new();
    let mut i: usize = 0;
    assert(findings_view(out@) =~= found_of(known.entries@, behind(packages@), affected@, 0));
    while i < known.entries.len()
        invariant
            i <= known.entries.len(),
            findings_view(out@) == found_of(
                known.entries@,
                behind(packages@),
                affected@,
                i as int,
            ),
        decreases known.entries.len() - i,
    {
        let ghost before = findings_view(out@);
        let name = known.entries[i].0.as_str();
        if installed_version(packages, name).is_some() && i < affected.len() {
            if let Some(a) = &affected[i] {
                let list = pick(&known.entries[i].1, a);
                assert(advisories_behind(list@).len() == list.len());
                if list.len() > 0 {
                    out.push(Finding { package: name, advisories: list });
                    assert(findings_view(out@) =~= before.push(
                        (name@, advisories_behind(list@)),
                    ));
                }
            }
        }
        i += 1;
    }
    out
}

/// The abandoned packages among the first `n`.
pub open spec fn abandoned_of(packages: Seq<LockedPackage>, n: int) -> Seq<LockedPackage>
    decreases n,
{
    if n <= 0 || n > packages.len() {
        Seq::empty()
    } else {
        let p = packages[n - 1];
        let t = abandoned_of(packages, n - 1);
        if p.abandoned@ == JsonView::Bool(true) || p.abandoned@ is Text {
            t.push(p)
        } else {
            t
        }
    }
}

/// What becomes of abandoned packages: the command fails where nothing else was asked for.
pub open spec fn behavior(asked: Option<String>) -> Seq<char> {
    match asked {
        Some(s) => s@,
        None => "fail"@,
    }
}

/// The abandoned packages that are reported.
pub fn abandoned_packages<'a>(packages: &[&'a LockedPackage], asked: &Option<String>) -> (r: Vec<
    &'a LockedPackage,
>)
    ensures
        behind(r@) == if behavior(*asked) == "ignore"@ {
            Seq::empty()
        } else {
            abandoned_of(behind(packages@), packages@.len() as int)
        },
{
    let ghost all = behind(packages@);
    let mut out: Vec<&'a LockedPackage> = Vec::new();
    assert(behind(out@) =~= abandoned_of(all, 0));
    let ignored = match asked {
        Some(s) => str_equal(s.as_str(), "ignore"),
        None => str_equal("fail", "ignore"),
    };
    if ignored {
        return out;
    }
    let mut i: usize = 0;
    while i < packages.len()
        invariant
            i <= packages.len(),
            all == behind(packages@),
            behind(out@) == abandoned_of(all, i as int),
        decreases packages.len() - i,
    {
        let ghost before = behind(out@);
        assert(all[i as int] == *packages@[i as int]);
        if packages[i].is_abandoned() {
            out.push(packages[i]);
            assert(behind(out@) =~= before.push(*packages@[i as int]));
        }
        i += 1;
    }
    out
}

/// The exit code: one for advisories, two more for abandoned packages where these make
/// the command fail.
pub fn exit_code(findings: usize, abandoned: usize, asked: &Option<String>) -> (r: i32)
    ensures
        r == (if findings > 0 {
            1int
        } else {
            0
        }) + (if abandoned > 0 && behavior(*asked) == "fail"@ {
            2int
        } else {
            0
        }),
{
    let mut code: i32 = 0;
    if findings > 0 {
        code += 1;
    }
    let fails = match asked {
        Some(s) => str_equal(s.as_str(), "fail"),
        None => true,
    };
    if abandoned > 0 && fails {
        code += 2;
    }
    code
}

/// What an audit comes to.
#[derive(Debug)]
pub struct Conclusion<'a> {
    pub findings: Vec<Finding<'a>>,
    pub abandoned: Vec<&'a LockedPackage>,
    pub code: i32,
}

/// The findings of an audit.
pub open spec fn found(
    known: Advisories,
    packages: Seq<LockedPackage>,
    affected: Seq<Option<Vec<bool>>>,
) -> Seq<(Seq<char>, Seq<SecurityAdvisory>)> {
    found_of(known.entries@, packages, affected, known.entries@.len() as int)
}

/// The abandoned packages that an audit reports.
pub open spec fn reported(packages: Seq<LockedPackage>, asked: Option<String>) -> Seq<
    LockedPackage,
> {
    if behavior(asked) == "ignore"@ {
        Seq::empty()
    } else {
        abandoned_of(packages, packages.len() as int)
    }
}

/// Concludes an audit of packages, given what is known of them and which advisories affect
/// their versions.
pub fn conclude<'a>(
    packages: &[&'a LockedPackage],
    known: &'a Advisories,
    affected: &Vec<Option<Vec<bool>>>,
    asked: &Option<String>,
) -> (r: Conclusion<'a>)
    ensures
        findings_view(r.findings@) == found(*known, behind(packages@), affected@),
        behind(r.abandoned@) == reported(behind(packages@), *asked),
        r.code == (if found(*known, behind(packages@), affected@).len() > 0 {
            1int
        } else {
            0
        }) + (if reported(behind(packages@), *asked).len() > 0 && behavior(*asked) == "fail"@ {
            2int
        } else {
            0
        }),
        0 <= r.code <= 3,
        r.code % 2 == 1 <==> exists|i: int, m: int|
            #[trigger] is_hit(known.entries@, affected@, i, m) && exists|k: int|
                0 <= k < behind(packages@).len() && (#[trigger] behind(packages@)[k]).name@
                    == known.entries@[i].0@,
        r.code >= 2 <==> (*asked is None || asked->0@ == "fail"@) && exists|k: int|
            0 <= k < behind(packages@).len() && ((#[trigger] behind(packages@)[k]).abandoned@
                == JsonView::Bool(true) || behind(packages@)[k].abandoned@ is Text),
{
    let findings = matching_advisories(known, packages, affected);
    let abandoned = abandoned_packages(packages, asked);
    assert(findings_view(findings@).len() == findings@.len());
    assert(behind(abandoned@).len() == abandoned@.len());
    assert(behind(packages@).len() == packages@.len());
    let code: i32 = exit_code(findings.len(), abandoned.len(), asked);
    proof {
        law_audit_fails_on_hits(*known, behind(packages@), affected@);
        law_failing_on_abandoned_packages(behind(packages@), *asked);
    }
    Conclusion { findings, abandoned, code }
}

// ---------------------------------------------------------------------------
// What is said
// ---------------------------------------------------------------------------
/// How many advisories the first `n` findings hold.
pub open spec fn total_of(f: Seq<(Seq<char>, Seq<SecurityAdvisory>)>, n: int) -> nat
    decreases n,
{
    if n <= 0 || n > f.len() {
        0
    } else {
        total_of(f, n - 1) + f[n - 1].1.len()
    }
}

/// How many advisories there are, as far as a `u64` counts.
pub fn total(findings: &Vec<Finding<'_>>) -> (r: u64)
    requires
        total_of(findings_view(findings@), findings@.len() as int) <= u64::MAX,
    ensures
        r == total_of(findings_view(findings@), findings@.len() as int),
{
    let ghost f = findings_view(findings@);
    let mut n: u64 = 0;
    let mut i: usize = 0;
    while i < findings.len()
        invariant
            i <= findings.len(),
            f == findings_view(findings@),
            n == total_of(f, i as int),
            total_of(f, findings@.len() as int) <= u64::MAX,
        decreases findings.len() - i,
    {
        proof {
            lemma_total_grows(f, i + 1, findings@.len() as int);
            assert(f[i as int].1.len() == findings@[i as int].advisories@.len());
        }
        n = n + findings[i].advisories.len() as u64;
        i += 1;
    }
    n
}

proof fn lemma_total_grows(f: Seq<(Seq<char>, Seq<SecurityAdvisory>)>, a: int, b: int)
    requires
        0 <= a <= b <= f.len(),
    ensures
        total_of(f, a) <= total_of(f, b),
    decreases b - a,
{
    if a < b {
        lemma_total_grows(f, a, b - 1);
    }
}

/// The line that counts the advisories.
pub open spec fn count_line(total: nat, packages: nat, end: Seq<char>) -> Seq<char> {
    "Found "@ + decimal(total) + " security vulnerability advisor"@ + (if total == 1 {
        "y"@
    } else {
        "ies"@
    }) + " affecting "@ + decimal(packages) + " package"@ + (if packages == 1 {
        ""@
    } else {
        "s"@
    }) + end
}

/// The line that counts the advisories.
pub fn advisory_count(total: u64, packages: u64, end: &str) -> (r: String)
    ensures
        r@ == count_line(total as nat, packages as nat, end@),
{
    let mut out = "Found ".to_owned();
    out.append(number(total).as_str());
    out.append(" security vulnerability advisor");
    out.append(
        if total == 1 {
            "y"
        } else {
            "ies"
        },
    );
    out.append(" affecting ");
    out.append(number(packages).as_str());
    out.append(" package");
    out.append(
        if packages == 1 {
            ""
        } else {
            "s"
        },
    );
    out.append(end);
    out
}

/// The line that counts the abandoned packages.
pub fn abandoned_count(n: u64) -> (r: String)
    ensures
        r@ == "Found "@ + decimal(n as nat) + " abandoned package"@ + (if n > 1 {
            "s"@
        } else {
            ""@
        }) + ":"@,
{
    let mut out = "Found ".to_owned();
    out.append(number(n).as_str());
    out.append(" abandoned package");
    out.append(
        if n > 1 {
            "s"
        } else {
            ""
        },
    );
    out.append(":");
    out
}

/// What to do about an abandoned package.
pub open spec fn advice_of(p: LockedPackage) -> Seq<char> {
    match p.abandoned@ {
        JsonView::Text(t) if t.len() > 0 => "Use "@ + t + " instead"@,
        _ => "No replacement was suggested"@,
    }
}

/// What to do about an abandoned package.
pub fn advice(p: &LockedPackage) -> (r: String)
    ensures
        r@ == advice_of(*p),
{
    match p.abandoned_replacement() {
        Some(t) => "Use ".to_owned().concat(t).concat(" instead"),
        None => "No replacement was suggested".to_owned(),
    }
}

/// A text, or another where there is none.
pub open spec fn or_text(v: Option<String>, other: Seq<char>) -> Seq<char> {
    match v {
        Some(s) => s@,
        None => other,
    }
}

fn or_str<'a>(v: &'a Option<String>, other: &'a str) -> (r: &'a str)
    ensures
        r@ == or_text(*v, other@),
{
    match v {
        Some(s) => s.as_str(),
        None => other,
    }
}

/// The text followed by an advisory, a rule before it where it is not the first.
pub open spec fn plain_advisory(out: Seq<char>, a: SecurityAdvisory, first: bool) -> Seq<char> {
    let t = if first {
        out
    } else {
        out + "--------\n"@
    };
    t + "Package: "@ + a.package_name@ + "\nSeverity: "@ + or_text(a.severity, ""@)
        + "\nAdvisory ID: "@ + a.advisory_id@ + "\nCVE: "@ + or_text(a.cve, "NO CVE"@)
        + "\nTitle: "@ + a.title@ + "\nURL: "@ + or_text(a.link, ""@) + "\nAffected versions: "@
        + a.affected_versions@ + "\nReported at: "@ + a.reported_at@ + "\n"@
}

/// The text followed by the first `n` advisories of a package.
pub open spec fn plain_advisories(
    out: Seq<char>,
    list: Seq<SecurityAdvisory>,
    n: int,
    first: bool,
) -> Seq<char>
    decreases n,
{
    if n <= 0 || n > list.len() {
        out
    } else {
        plain_advisory(
            plain_advisories(out, list, n - 1, first),
            list[n - 1],
            first && n == 1,
        )
    }
}

/// The text followed by the first `n` findings.
pub open spec fn plain_findings(
    out: Seq<char>,
    f: Seq<(Seq<char>, Seq<SecurityAdvisory>)>,
    n: int,
) -> Seq<char>
    decreases n,
{
    if n <= 0 || n > f.len() {
        out
    } else {
        plain_advisories(
            plain_findings(out, f, n - 1),
            f[n - 1].1,
            f[n - 1].1.len() as int,
            total_of(f, n - 1) == 0,
        )
    }
}

/// The text followed by the first `n` abandoned packages.
pub open spec fn plain_abandoned(out: Seq<char>, packages: Seq<LockedPackage>, n: int) -> Seq<char>
    decreases n,
{
    if n <= 0 || n > packages.len() {
        out
    } else {
        plain_abandoned(out, packages, n - 1) + packages[n - 1].name@ + " is abandoned. "@
            + advice_of(packages[n - 1]) + "\n"@
    }
}

/// The report in plain text.
pub open spec fn plain_report(
    f: Seq<(Seq<char>, Seq<SecurityAdvisory>)>,
    abandoned: Seq<LockedPackage>,
) -> Seq<char> {
    let total = total_of(f, f.len() as int);
    let t = if total > 0 {
        plain_findings(
            count_line(total, f.len(), ":"@) + "\n"@,
            f,
            f.len() as int,
        )
    } else {
        "No security vulnerability advisories found.\n"@
    };
    if abandoned.len() > 0 {
        plain_abandoned(
            t + ("Found "@ + decimal(abandoned.len()) + " abandoned package"@ + (if abandoned.len()
                > 1 {
                "s"@
            } else {
                ""@
            }) + ":"@) + "\n"@,
            abandoned,
            abandoned.len() as int,
        )
    } else {
        t
    }
}

fn write_advisory(out: &mut String, a: &SecurityAdvisory, first: bool)
    ensures
        final(out)@ == plain_advisory(old(out)@, *a, first),
{
    if !first {
        out.append("--------\n");
    }
    out.append("Package: ");
    out.append(a.package_name.as_str());
    out.append("\nSeverity: ");
    out.append(or_str(&a.severity, ""));
    out.append("\nAdvisory ID: ");
    out.append(a.advisory_id.as_str());
    out.append("\nCVE: ");
    out.append(or_str(&a.cve, "NO CVE"));
    out.append("\nTitle: ");
    out.append(a.title.as_str());
    out.append("\nURL: ");
    out.append(or_str(&a.link, ""));
    out.append("\nAffected versions: ");
    out.append(a.affected_versions.as_str());
    out.append("\nReported at: ");
    out.append(a.reported_at.as_str());
    out.append("\n");
}

/// The report in plain text.
pub fn output_plain(findings: &Vec<Finding<'_>>, abandoned: &Vec<&LockedPackage>) -> (r: String)
    requires
        total_of(findings_view(findings@), findings@.len() as int) <= u64::MAX,
    ensures
        r@ == plain_report(findings_view(findings@), behind(abandoned@)),
{
    let ghost f = findings_view(findings@);
    let ghost left = behind(abandoned@);
    assert(f.len() == findings.len());
    assert(left.len() == abandoned.len());
    let sum: u64 = total(findings);
    let mut out = if sum > 0 {
        let mut t = advisory_count(sum, findings.len() as u64, ":");
        t.append("\n");
        t
    } else {
        "No security vulnerability advisories found.\n".to_owned()
    };
    if sum > 0 {
        let ghost head = out@;
        let mut first = true;
        let mut i: usize = 0;
        while i < findings.len()
            invariant
                i <= findings.len(),
                f == findings_view(findings@),
                out@ == plain_findings(head, f, i as int),
                first == (total_of(f, i as int) == 0),
            decreases findings.len() - i,
        {
            let list = &findings[i].advisories;
            let ghost l = advisories_behind(list@);
            let ghost before = out@;
            let ghost was_first = first;
            assert(f[i as int].1 == l);
            assert(l.len() == list.len());
            let mut j: usize = 0;
            while j < list.len()
                invariant
                    j <= list.len(),
                    l == advisories_behind(list@),
                    out@ == plain_advisories(before, l, j as int, was_first),
                    first == (was_first && j == 0),
                decreases list.len() - j,
            {
                assert(l[j as int] == *list@[j as int]);
                write_advisory(&mut out, list[j], first);
                first = false;
                j += 1;
            }
            i += 1;
        }
    }
    if abandoned.len() > 0 {
        out.append(abandoned_count(abandoned.len() as u64).as_str());
        out.append("\n");
        let ghost head = out@;
        let mut i: usize = 0;
        while i < abandoned.len()
            invariant
                i <= abandoned.len(),
                left == behind(abandoned@),
                out@ == plain_abandoned(head, left, i as int),
            decreases abandoned.len() - i,
        {
            assert(left[i as int] == *abandoned@[i as int]);
            out.append(abandoned[i].name.as_str());
            out.append(" is abandoned. ");
            out.append(advice(abandoned[i]).as_str());
            out.append("\n");
            i += 1;
        }
    }
    out
}

/// The report in short.
pub fn output_summary(findings: &Vec<Finding<'_>>) -> (r: String)
    requires
        total_of(findings_view(findings@), findings@.len() as int) <= u64::MAX,
    ensures
        r@ == if total_of(findings_view(findings@), findings@.len() as int) > 0 {
            count_line(
                total_of(findings_view(findings@), findings@.len() as int),
                findings@.len() as nat,
                "."@,
            ) + "\nRun \"sonata audit\" for a full list of advisories.\n"@
        } else {
            "No security vulnerability advisories found.\n"@
        },
{
    let sum: u64 = total(findings);
    if sum > 0 {
        advisory_count(sum, findings.len() as u64, ".").concat(
            "\nRun \"sonata audit\" for a full list of advisories.\n",
        )
    } else {
        "No security vulnerability advisories found.\n".to_owned()
    }
}

/// How bad an advisory is.
#[derive(Debug, Clone, Copy, PartialEq, Eq, Structural)]
pub enum Severity {
    Critical,
    High,
    Medium,
    Low,
    Unknown,
}

/// How bad an advisory is, from what it says.
pub open spec fn severity_of(s: Option<Seq<char>>) -> Severity {
    match s {
        Some(t) => if t == "critical"@ {
            Severity::Critical
        } else if t == "high"@ {
            Severity::High
        } else if t == "medium"@ {
            Severity::Medium
        } else if t == "low"@ {
            Severity::Low
        } else {
            Severity::Unknown
        },
        None => Severity::Unknown,
    }
}

/// How bad an advisory is, from what it says.
pub fn severity(s: &Option<String>) -> (r: Severity)
    ensures
        r == severity_of(opt(*s)),
{
    match s {
        Some(t) => if str_equal(t.as_str(), "critical") {
            Severity::Critical
        } else if str_equal(t.as_str(), "high") {
            Severity::High
        } else if str_equal(t.as_str(), "medium") {
            Severity::Medium
        } else if str_equal(t.as_str(), "low") {
            Severity::Low
        } else {
            Severity::Unknown
        },
        None => Severity::Unknown,
    }
}

/// A line of the report as a table; whoever prints it picks the colours.
#[derive(Debug)]
pub enum Line {
    /// How many advisories there are.
    Alarm(String),
    /// That there are none.
    Calm(String),
    /// How many abandoned packages there are.
    Notice(String),
    Blank,
    /// A rule across the page.
    Rule,
    /// A label and what belongs to it.
    Field(String, String),
    /// How bad an advisory is.
    Severity(Severity),
    /// An abandoned package and what to do about it.
    Abandoned(String, String),
}

/// What a line says.
pub enum LineView {
    Alarm(Seq<char>),
    Calm(Seq<char>),
    Notice(Seq<char>),
    Blank,
    Rule,
    Field(Seq<char>, Seq<char>),
    Severity(Severity),
    Abandoned(Seq<char>, Seq<char>),
}

impl View for Line {
    type V = LineView;

    open spec fn view(&self) -> LineView {
        match *self {
            Line::Alarm(t) => LineView::Alarm(t@),
            Line::Calm(t) => LineView::Calm(t@),
            Line::Notice(t) => LineView::Notice(t@),
            Line::Blank => LineView::Blank,
            Line::Rule => LineView::Rule,
            Line::Field(a, b) => LineView::Field(a@, b@),
            Line::Severity(s) => LineView::Severity(s),
            Line::Abandoned(a, b) => LineView::Abandoned(a@, b@),
        }
    }
}

/// What the lines say.
pub open spec fn lines_view(v: Seq<Line>) -> Seq<LineView> {
    v.map_values(|l: Line| l@)
}

proof fn lemma_lines_push(v: Seq<Line>, l: Line)
    ensures
        lines_view(v.push(l)) == lines_view(v).push(l@),
{
    assert(lines_view(v.push(l)) =~= lines_view(v).push(l@));
}

/// The lines followed by an advisory.
pub open spec fn table_advisory(out: Seq<LineView>, a: SecurityAdvisory) -> Seq<LineView> {
    let head = out.push(LineView::Rule).push(
        LineView::Field("Package"@, a.package_name@),
    ).push(LineView::Severity(severity_of(opt(a.severity)))).push(
        LineView::Field("Advisory ID"@, a.advisory_id@),
    ).push(LineView::Field("CVE"@, or_text(a.cve, "NO CVE"@))).push(
        LineView::Field("Title"@, a.title@),
    );
    let link = match a.link {
        Some(l) => head.push(LineView::Field("URL"@, l@)),
        None => head,
    };
    link.push(LineView::Field("Affected versions"@, a.affected_versions@)).push(
        LineView::Field("Reported at"@, a.reported_at@),
    ).push(LineView::Blank)
}

/// The lines followed by the first `n` advisories of a package.
pub open spec fn table_advisories(
    out: Seq<LineView>,
    list: Seq<SecurityAdvisory>,
    n: int,
) -> Seq<LineView>
    decreases n,
{
    if n <= 0 || n > list.len() {
        out
    } else {
        table_advisory(table_advisories(out, list, n - 1), list[n - 1])
    }
}

/// The lines followed by the first `n` findings.
pub open spec fn table_findings(
    out: Seq<LineView>,
    f: Seq<(Seq<char>, Seq<SecurityAdvisory>)>,
    n: int,
) -> Seq<LineView>
    decreases n,
{
    if n <= 0 || n > f.len() {
        out
    } else {
        table_advisories(table_findings(out, f, n - 1), f[n - 1].1, f[n - 1].1.len() as int)
    }
}

/// The lines followed by the first `n` abandoned packages.
pub open spec fn table_abandoned(
    out: Seq<LineView>,
    packages: Seq<LockedPackage>,
    n: int,
) -> Seq<LineView>
    decreases n,
{
    if n <= 0 || n > packages.len() {
        out
    } else {
        table_abandoned(out, packages, n - 1).push(
            LineView::Abandoned(packages[n - 1].name@, advice_of(packages[n - 1])),
        )
    }
}

/// The report as a table.
pub open spec fn table_report(
    f: Seq<(Seq<char>, Seq<SecurityAdvisory>)>,
    abandoned: Seq<LockedPackage>,
) -> Seq<LineView> {
    let total = total_of(f, f.len() as int);
    let t = if total > 0 {
        table_findings(
            Seq::<LineView>::empty().push(
                LineView::Alarm(count_line(total, f.len(), ":"@)),
            ).push(LineView::Blank),
            f,
            f.len() as int,
        )
    } else {
        Seq::<LineView>::empty().push(
            LineView::Calm("No security vulnerability advisories found."@),
        )
    };
    if abandoned.len() > 0 {
        table_abandoned(
            t.push(
                LineView::Notice(
                    "Found "@ + decimal(abandoned.len()) + " abandoned package"@ + (
                    if abandoned.len() > 1 {
                        "s"@
                    } else {
                        ""@
                    }) + ":"@,
                ),
            ).push(LineView::Blank),
            abandoned,
            abandoned.len() as int,
        )
    } else {
        t
    }
}

fn put_line(out: &mut Vec<Line>, l: Line)
    ensures
        lines_view(final(out)@) == lines_view(old(out)@).push(l@),
{
    proof {
        lemma_lines_push(out@, l);
    }
    out.push(l);
}

fn field(label: &str, value: &str) -> (r: Line)
    ensures
        r@ == LineView::Field(label@, value@),
{
    Line::Field(label.to_owned(), value.to_owned())
}

fn put_advisory(out: &mut Vec<Line>, a: &SecurityAdvisory)
    ensures
        lines_view(final(out)@) == table_advisory(lines_view(old(out)@), *a),
{
    put_line(out, Line::Rule);
    put_line(out, field("Package", a.package_name.as_str()));
    put_line(out, Line::Severity(severity(&a.severity)));
    put_line(out, field("Advisory ID", a.advisory_id.as_str()));
    put_line(out, field("CVE", or_str(&a.cve, "NO CVE")));
    put_line(out, field("Title", a.title.as_str()));
    if let Some(l) = &a.link {
        put_line(out, field("URL", l.as_str()));
    }
    put_line(out, field("Affected versions", a.affected_versions.as_str()));
    put_line(out, field("Reported at", a.reported_at.as_str()));
    put_line(out, Line::Blank);
}

/// The report as a table.
pub fn output_table(findings: &Vec<Finding<'_>>, abandoned: &Vec<&LockedPackage>) -> (r: Vec<Line>)
    requires
        total_of(findings_view(findings@), findings@.len() as int) <= u64::MAX,
    ensures
        lines_view(r@) == table_report(findings_view(findings@), behind(abandoned@)),
{
    let ghost f = findings_view(findings@);
    let ghost left = behind(abandoned@);
    assert(f.len() == findings.len());
    assert(left.len() == abandoned.len());
    let sum: u64 = total(findings);
    let mut out: Vec<Line> = Vec::new();
    assert(lines_view(out@) =~= Seq::empty());
    if sum > 0 {
        put_line(&mut out, Line::Alarm(advisory_count(sum, findings.len() as u64, ":")));
        put_line(&mut out, Line::Blank);
        let ghost head = lines_view(out@);
        let mut i: usize = 0;
        while i < findings.len()
            invariant
                i <= findings.len(),
                f == findings_view(findings@),
                lines_view(out@) == table_findings(head, f, i as int),
            decreases findings.len() - i,
        {
            let list = &findings[i].advisories;
            let ghost l = advisories_behind(list@);
            let ghost before = lines_view(out@);
            assert(f[i as int].1 == l);
            assert(l.len() == list.len());
            let mut j: usize = 0;
            while j < list.len()
                invariant
                    j <= list.len(),
                    l == advisories_behind(list@),
                    lines_view(out@) == table_advisories(before, l, j as int),
                decreases list.len() - j,
            {
                assert(l[j as int] == *list@[j as int]);
                put_advisory(&mut out, list[j]);
                j += 1;
            }
            i += 1;
        }
    } else {
        put_line(
            &mut out,
            Line::Calm("No security vulnerability advisories found.".to_owned()),
        );
    }
    if abandoned.len() > 0 {
        put_line(&mut out, Line::Notice(abandoned_count(abandoned.len() as u64)));
        put_line(&mut out, Line::Blank);
        let ghost head = lines_view(out@);
        let mut i: usize = 0;
        while i < abandoned.len()
            invariant
                i <= abandoned.len(),
                left == behind(abandoned@),
                lines_view(out@) == table_abandoned(head, left, i as int),
            decreases abandoned.len() - i,
        {
            assert(left[i as int] == *abandoned@[i as int]);
            put_line(
                &mut out,
                Line::Abandoned(abandoned[i].name.as_str().to_owned(), advice(abandoned[i])),
            );
            i += 1;
        }
    }
    out
}

// ---------------------------------------------------------------------------
// Advisories as JSON
// ---------------------------------------------------------------------------
/// A map in JSON, an empty array where nothing is in it.
pub open spec fn map_view(entries: Entries) -> JsonView {
    if entries.len() == 0 {
        JsonView::Array(Seq::empty())
    } else {
        JsonView::Object(entries)
    }
}

/// A map in JSON, an empty array where nothing is in it.
pub fn map_or_empty_array(entries: Vec<(String, Json)>) -> (r: Json)
    ensures
        r@ == map_view(entries_view(entries@)),
{
    broadcast use lemma_array_view, lemma_object_view;

    if entries.len() == 0 {
        let none: Vec<Json> = Vec::new();
        let r = Json::Array(none);
        assert(items_view(none@) =~= Seq::empty());
        assert(entries_view(entries@).len() == 0);
        r
    } else {
        assert(entries_view(entries@).len() > 0);
        Json::Object(entries)
    }
}

/// The advisories by package that an answer holds: an object, or an empty array where
/// there are none.
pub fn advisory_entries(value: &Json) -> (r: Result<Vec<(String, Json)>, Refusal>)
    ensures
        match value@ {
            JsonView::Object(o) => r is Ok && entries_view(r->Ok_0@) == o,
            JsonView::Array(items) => if items.len() == 0 {
                r is Ok && entries_view(r->Ok_0@) == Entries::empty()
            } else {
                r is Err && r->Err_0@ == "advisories must be an object or an empty array"@
            },
            _ => r is Err && r->Err_0@ == "advisories must be an object or an empty array"@,
        },
{
    broadcast use lemma_array_view, lemma_object_view;

    match value {
        Json::Object(entries) => Ok(copy_entries(entries)),
        Json::Array(items) if items.len() == 0 => {
            let none: Vec<(String, Json)> = Vec::new();
            assert(entries_view(none@) =~= Entries::empty());
            Ok(none)
        },
        _ => refuse("advisories must be an object or an empty array"),
    }
}

/// A text in JSON, null where there is none.
pub open spec fn text_or_null(v: Option<Seq<char>>) -> JsonView {
    match v {
        Some(t) => JsonView::Text(t),
        None => JsonView::Null,
    }
}

fn optional_text(v: &Option<String>) -> (r: Json)
    ensures
        r@ == text_or_null(opt(*v)),
{
    match v {
        Some(t) => text(t.as_str()),
        None => Json::Null,
    }
}

/// Where an advisory comes from, in JSON.
pub open spec fn source_view(s: AdvisorySource) -> JsonView {
    JsonView::Object(
        Entries::empty().push(("name"@, JsonView::Text(s.name@))).push(
            ("remoteId"@, JsonView::Text(s.remote_id@)),
        ),
    )
}

/// An advisory in JSON.
pub open spec fn advisory_view(a: SecurityAdvisory) -> JsonView {
    JsonView::Object(
        Entries::empty().push(("advisoryId"@, JsonView::Text(a.advisory_id@))).push(
            ("packageName"@, JsonView::Text(a.package_name@)),
        ).push(("title"@, JsonView::Text(a.title@))).push(("cve"@, text_or_null(opt(a.cve)))).push(
            ("link"@, text_or_null(opt(a.link))),
        ).push(("severity"@, text_or_null(opt(a.severity)))).push(
            ("affectedVersions"@, JsonView::Text(a.affected_versions@)),
        ).push(("reportedAt"@, JsonView::Text(a.reported_at@))).push(
            (
                "sources"@,
                JsonView::Array(a.sources@.map_values(|s: AdvisorySource| source_view(s))),
            ),
        ),
    )
}

fn source_json(s: &AdvisorySource) -> (r: Json)
    ensures
        r@ == source_view(*s),
{
    let mut e: Vec<(String, Json)> = Vec::new();
    assert(entries_view(e@) =~= Entries::empty());
    add_entry(&mut e, "name", text(s.name.as_str()));
    add_entry(&mut e, "remoteId", text(s.remote_id.as_str()));
    proof {
        lemma_object_view(e);
    }
    Json::Object(e)
}

fn sources_json(v: &Vec<AdvisorySource>) -> (r: Json)
    ensures
        r@ == JsonView::Array(v@.map_values(|s: AdvisorySource| source_view(s))),
{
    let mut out: Vec<Json> = Vec::new();
    let mut i: usize = 0;
    while i < v.len()
        invariant
            i <= v.len(),
            items_view(out@) =~= v@.take(i as int).map_values(
                |s: AdvisorySource| source_view(s),
            ),
        decreases v.len() - i,
    {
        let j = source_json(&v[i]);
        proof {
            lemma_items_push(out@, j);
        }
        out.push(j);
        i += 1;
    }
    proof {
        lemma_array_view(out);
        assert(v@.take(i as int) =~= v@);
    }
    Json::Array(out)
}

fn advisory_json(a: &SecurityAdvisory) -> (r: Json)
    ensures
        r@ == advisory_view(*a),
{
    let mut e: Vec<(String, Json)> = Vec::new();
    assert(entries_view(e@) =~= Entries::empty());
    add_entry(&mut e, "advisoryId", text(a.advisory_id.as_str()));
    add_entry(&mut e, "packageName", text(a.package_name.as_str()));
    add_entry(&mut e, "title", text(a.title.as_str()));
    add_entry(&mut e, "cve", optional_text(&a.cve));
    add_entry(&mut e, "link", optional_text(&a.link));
    add_entry(&mut e, "severity", optional_text(&a.severity));
    add_entry(&mut e, "affectedVersions", text(a.affected_versions.as_str()));
    add_entry(&mut e, "reportedAt", text(a.reported_at.as_str()));
    add_entry(&mut e, "sources", sources_json(&a.sources));
    proof {
        lemma_object_view(e);
    }
    Json::Object(e)
}

fn advisories_json(v: &Vec<&SecurityAdvisory>) -> (r: Json)
    ensures
        r@ == JsonView::Array(
            advisories_behind(v@).map_values(|a: SecurityAdvisory| advisory_view(a)),
        ),
{
    let ghost all = advisories_behind(v@);
    let mut out: Vec<Json> = Vec::new();
    let mut i: usize = 0;
    while i < v.len()
        invariant
            i <= v.len(),
            all == advisories_behind(v@),
            items_view(out@) =~= all.take(i as int).map_values(
                |a: SecurityAdvisory| advisory_view(a),
            ),
        decreases v.len() - i,
    {
        let j = advisory_json(v[i]);
        assert(all[i as int] == *v@[i as int]);
        proof {
            lemma_items_push(out@, j);
        }
        out.push(j);
        i += 1;
    }
    proof {
        lemma_array_view(out);
        assert(all.take(i as int) =~= all);
    }
    Json::Array(out)
}

/// The findings in JSON, by package.
pub open spec fn findings_entries(f: Seq<(Seq<char>, Seq<SecurityAdvisory>)>) -> Entries {
    f.map_values(
        |p: (Seq<char>, Seq<SecurityAdvisory>)|
            (p.0, JsonView::Array(p.1.map_values(|a: SecurityAdvisory| advisory_view(a)))),
    )
}

/// What replaces the first `n` abandoned packages, by package.
pub open spec fn replacement_entries(packages: Seq<LockedPackage>, n: int) -> Entries
    decreases n,
{
    if n <= 0 || n > packages.len() {
        Entries::empty()
    } else {
        with_entry(
            replacement_entries(packages, n - 1),
            packages[n - 1].name@,
            match packages[n - 1].abandoned@ {
                JsonView::Text(t) if t.len() > 0 => JsonView::Text(t),
                _ => JsonView::Null,
            },
        )
    }
}

/// The report in JSON.
pub open spec fn json_report(
    f: Seq<(Seq<char>, Seq<SecurityAdvisory>)>,
    abandoned: Seq<LockedPackage>,
) -> JsonView {
    JsonView::Object(
        Entries::empty().push(("advisories"@, map_view(findings_entries(f)))).push(
            (
                "abandoned"@,
                map_view(replacement_entries(abandoned, abandoned.len() as int)),
            ),
        ).push(("filter"@, JsonView::Array(Seq::empty()))),
    )
}

/// The report in JSON.
pub fn report_json(findings: &Vec<Finding<'_>>, abandoned: &Vec<&LockedPackage>) -> (r: Json)
    ensures
        r@ == json_report(findings_view(findings@), behind(abandoned@)),
{
    let ghost f = findings_view(findings@);
    let ghost left = behind(abandoned@);
    let mut known: Vec<(String, Json)> = Vec::new();
    let mut i: usize = 0;
    assert(entries_view(known@) =~= findings_entries(f.take(0)));
    while i < findings.len()
        invariant
            i <= findings.len(),
            f == findings_view(findings@),
            entries_view(known@) == findings_entries(f.take(i as int)),
        decreases findings.len() - i,
    {
        let list = advisories_json(&findings[i].advisories);
        let ghost before = entries_view(known@);
        add_entry(&mut known, findings[i].package, list);
        assert(f[i as int] == (
            findings@[i as int].package@,
            advisories_behind(findings@[i as int].advisories@),
        ));
        assert(findings_entries(f.take(i + 1)) =~= before.push(
            (findings@[i as int].package@, list@),
        ));
        i += 1;
    }
    assert(f.take(i as int) =~= f);
    let mut gone: Vec<(String, Json)> = Vec::new();
    let mut j: usize = 0;
    assert(entries_view(gone@) =~= replacement_entries(left, 0));
    while j < abandoned.len()
        invariant
            j <= abandoned.len(),
            left == behind(abandoned@),
            entries_view(gone@) == replacement_entries(left, j as int),
        decreases abandoned.len() - j,
    {
        assert(left[j as int] == *abandoned@[j as int]);
        let instead = match abandoned[j].abandoned_replacement() {
            Some(t) => text(t),
            None => Json::Null,
        };
        put(&mut gone, abandoned[j].name.as_str(), instead);
        j += 1;
    }
    let mut e: Vec<(String, Json)> = Vec::new();
    assert(entries_view(e@) =~= Entries::empty());
    add_entry(&mut e, "advisories", map_or_empty_array(known));
    add_entry(&mut e, "abandoned", map_or_empty_array(gone));
    let none: Vec<Json> = Vec::new();
    proof {
        lemma_array_view(none);
        assert(items_view(none@) =~= Seq::empty());
    }
    add_entry(&mut e, "filter", Json::Array(none));
    proof {
        lemma_object_view(e);
    }
    Json::Object(e)
}

/// The report in JSON, as text.
pub fn output_json(findings: &Vec<Finding<'_>>, abandoned: &Vec<&LockedPackage>) -> (r: String)
    ensures
        r@ == pretty(json_report(findings_view(findings@), behind(abandoned@))),
{
    print_pretty(&report_json(findings, abandoned))
}

// ---------------------------------------------------------------------------
// What holds of it
// ---------------------------------------------------------------------------
/// Every advisory that is reported is one of a package that is audited, is known of that
/// package, and affects the version of it.
pub proof fn law_findings_affect_audited_packages(
    known: Seq<(String, Vec<SecurityAdvisory>)>,
    packages: Seq<LockedPackage>,
    affected: Seq<Option<Vec<bool>>>,
    n: int,
    k: int,
    j: int,
)
    requires
        0 <= n <= known.len(),
        0 <= k < found_of(known, packages, affected, n).len(),
        0 <= j < found_of(known, packages, affected, n)[k].1.len(),
    ensures
        version_of(packages, found_of(known, packages, affected, n)[k].0).is_some(),
        exists|i: int, m: int|
            is_hit(known, affected, i, m) && #[trigger] known[i].0@ == found_of(
                known,
                packages,
                affected,
                n,
            )[k].0 && #[trigger] known[i].1@[m] == found_of(known, packages, affected, n)[k].1[j],
    decreases n,
{
    let t = found_of(known, packages, affected, n - 1);
    if k < t.len() {
        law_findings_affect_audited_packages(known, packages, affected, n - 1, k, j);
        let (i, m) = choose|i: int, m: int|
            is_hit(known, affected, i, m) && #[trigger] known[i].0@ == t[k].0
                && #[trigger] known[i].1@[m] == t[k].1[j];
        assert(known[i].0@ == found_of(known, packages, affected, n)[k].0);
        assert(known[i].1@[m] == found_of(known, packages, affected, n)[k].1[j]);
    } else {
        let list = known[n - 1].1@;
        let a = affected[n - 1]->0@;
        lemma_hits(list, a, list.len() as int, j);
        let m = choose|m: int|
            0 <= m < list.len() && m < a.len() && a[m] && #[trigger] list[m] == hits(
                list,
                a,
                list.len() as int,
            )[j];
        assert(is_hit(known, affected, n - 1, m));
        assert(known[n - 1].1@[m] == found_of(known, packages, affected, n)[k].1[j]);
    }
}

/// The advisory `m` of the package at `i` affects the version of the package.
pub open spec fn is_hit(
    known: Seq<(String, Vec<SecurityAdvisory>)>,
    affected: Seq<Option<Vec<bool>>>,
    i: int,
    m: int,
) -> bool {
    0 <= i < known.len() && i < affected.len() && 0 <= m < known[i].1@.len() && (
    affected[i] matches Some(a) && m < a@.len() && a@[m])
}

proof fn lemma_hits(list: Seq<SecurityAdvisory>, affected: Seq<bool>, n: int, j: int)
    requires
        0 <= n <= list.len(),
        0 <= j < hits(list, affected, n).len(),
    ensures
        exists|m: int|
            0 <= m < n && m < affected.len() && affected[m] && #[trigger] list[m] == hits(
                list,
                affected,
                n,
            )[j],
    decreases n,
{
    let t = hits(list, affected, n - 1);
    if j < t.len() {
        lemma_hits(list, affected, n - 1, j);
        let m = choose|m: int|
            0 <= m < n - 1 && m < affected.len() && affected[m] && #[trigger] list[m] == t[j];
        assert(list[m] == hits(list, affected, n)[j]);
    } else {
        assert(list[n - 1] == hits(list, affected, n)[j]);
    }
}

/// Nothing that affects an audited package goes unreported.
pub proof fn law_every_hit_is_reported(
    known: Seq<(String, Vec<SecurityAdvisory>)>,
    packages: Seq<LockedPackage>,
    affected: Seq<Option<Vec<bool>>>,
    n: int,
    i: int,
    m: int,
)
    requires
        0 <= i < n <= known.len(),
        is_hit(known, affected, i, m),
        version_of(packages, known[i].0@).is_some(),
    ensures
        exists|k: int|
            0 <= k < found_of(known, packages, affected, n).len() && #[trigger] found_of(
                known,
                packages,
                affected,
                n,
            )[k].0 == known[i].0@ && found_of(known, packages, affected, n)[k].1.contains(
                known[i].1@[m],
            ),
    decreases n,
{
    let t = found_of(known, packages, affected, n - 1);
    let u = found_of(known, packages, affected, n);
    if i < n - 1 {
        law_every_hit_is_reported(known, packages, affected, n - 1, i, m);
        let k = choose|k: int|
            0 <= k < t.len() && #[trigger] t[k].0 == known[i].0@ && t[k].1.contains(
                known[i].1@[m],
            );
        assert(u[k] == t[k]);
    } else {
        let list = known[i].1@;
        let a = affected[i]->0@;
        lemma_hit_kept(list, a, list.len() as int, m);
        let h = hits(list, a, list.len() as int);
        assert(h.len() > 0);
        assert(u[t.len() as int] == (known[i].0@, h));
    }
}

proof fn lemma_hit_kept(list: Seq<SecurityAdvisory>, affected: Seq<bool>, n: int, m: int)
    requires
        0 <= m < n <= list.len(),
        m < affected.len(),
        affected[m],
    ensures
        hits(list, affected, n).contains(list[m]),
    decreases n,
{
    let h = hits(list, affected, n);
    if m < n - 1 {
        lemma_hit_kept(list, affected, n - 1, m);
        let t = hits(list, affected, n - 1);
        let j = choose|j: int| 0 <= j < t.len() && t[j] == list[m];
        assert(h[j] == list[m]);
    } else {
        assert(h[h.len() - 1] == list[m]);
    }
}

} // verus!
