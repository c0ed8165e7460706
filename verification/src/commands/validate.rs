//! The command `validate`: whether a manifest and its lock file are in order.
use vstd::prelude::*;
use vstd::string::*;

use indexmap::IndexMap;

use crate::json::{items_view, lemma_array_view, Json, JsonView};
use crate::links::{link_count, link_entry, links, Pairs};
use crate::lock::{opt, ComposerLock, LockedPackage};
use crate::names::{is_platform_package, platform};
use crate::paths::{absolute, join_path, joined_path, lexical_join, walked};
use crate::schema::ComposerJson;
use crate::sorted::{ascending, find_place, is_at, lemma_ascending, lemma_place, names_of};
use crate::text::{
    ascii_lower, lemma_views_push, precedes, str_equal, to_ascii_lowercase, views,
};

verus! {

/// What the user asks of the command.
#[derive(Debug)]
pub struct ValidateArgs {
    pub no_check_all: bool,
    /// Check the lock file though it is disabled.
    pub check_lock: bool,
    /// What is wrong with the lock file is no error.
    pub no_check_lock: bool,
    pub no_check_publish: bool,
    pub no_check_version: bool,
    /// Check the installed packages too.
    pub with_dependencies: bool,
    /// Fail on warnings.
    pub strict: bool,
    pub file: Option<String>,
    pub working_dir: String,
}

/// What is wrong with a manifest.
#[derive(Debug)]
pub struct ManifestValidation {
    pub errors: Vec<String>,
    /// What keeps the package from being published.
    pub publish_errors: Vec<String>,
    pub warnings: Vec<String>,
}

impl Default for ManifestValidation {
    fn default() -> (r: ManifestValidation)
        ensures
            r.errors@.len() == 0,
            r.publish_errors@.len() == 0,
            r.warnings@.len() == 0,
    {
        ManifestValidation { errors: Vec::new(), publish_errors: Vec::new(), warnings: Vec::new() }
    }
}

/// Where the manifest is, and how it is called.
pub fn resolve_manifest_path(working_dir: &str, file: Option<&str>) -> (r: (String, String))
    ensures
        match file {
            Some(f) => r.0@ == joined_path(working_dir@, f@) && r.1@ == f@,
            None => r.0@ == joined_path(working_dir@, "composer.json"@) && r.1@
                == "./composer.json"@,
        },
        file matches Some(f) ==> (absolute(f@) ==> r.0@ == f@),
{
    match file {
        Some(f) => (join_path(working_dir, f), f.to_owned()),
        None => (join_path(working_dir, "composer.json"), "./composer.json".to_owned()),
    }
}

/// The lock file is enabled unless the manifest says otherwise.
pub fn lock_enabled(configured: Option<bool>) -> (r: bool)
    ensures
        r == (configured != Some(false)),
{
    match configured {
        Some(b) => b,
        None => true,
    }
}

/// What is wrong with the lock file counts as an error.
pub fn lock_is_checked(args: &ValidateArgs, enabled: bool) -> (r: bool)
    ensures
        r == (args.check_lock || (!args.no_check_lock && enabled)),
{
    args.check_lock || (!args.no_check_lock && enabled)
}

/// What is said of a lock file that does not count.
pub fn lock_ignored(lock: &str) -> (r: String)
    ensures
        r@ == lock@ + " is present but ignored as the \"lock\" config option is disabled."@,
{
    lock.to_owned().concat(" is present but ignored as the \"lock\" config option is disabled.")
}

// ---------------------------------------------------------------------------
// What is said of a manifest
// ---------------------------------------------------------------------------
/// What goes to the standard output and to the standard error, and the exit code.
#[derive(Debug)]
pub struct Report {
    pub out: String,
    pub err: String,
    pub code: i32,
}

/// The text followed by the first `n` of a list, each on a line behind a mark.
pub open spec fn listed(t: Seq<char>, mark: Seq<char>, list: Seq<Seq<char>>, n: int) -> Seq<char>
    decreases n,
{
    if n <= 0 || n > list.len() {
        t
    } else {
        listed(t, mark, list, n - 1) + mark + list[n - 1] + "\n"@
    }
}

/// The text followed by a heading and a list, where there is anything to list.
pub open spec fn section(
    t: Seq<char>,
    heading: Seq<char>,
    mark: Seq<char>,
    list: Seq<Seq<char>>,
) -> Seq<char> {
    if list.len() > 0 {
        listed(t + heading, mark, list, list.len() as int)
    } else {
        t
    }
}

/// What is asked of a report: whether publishing and the lock file count, whether
/// warnings do, and whether the schema is named.
pub struct Demands {
    pub check_publish: bool,
    pub check_lock: bool,
    pub strict: bool,
    pub print_schema_url: bool,
}

const SCHEMA: &'static str = "See https://getcomposer.org/doc/04-schema.md for details on the schema\n";

/// The first lines of the report on the standard error.
pub open spec fn verdict_err(
    name: Seq<char>,
    errors: nat,
    publish: nat,
    warnings: nat,
    d: Demands,
) -> Seq<char> {
    if errors > 0 {
        name + " is invalid, the following errors/warnings were found:\n"@
    } else if d.check_publish && publish > 0 {
        let t = name + " is valid for simple usage with Composer but has\n"@
            + "strict errors that make it unable to be published as a package\n"@;
        if d.print_schema_url {
            t + "See https://getcomposer.org/doc/04-schema.md for details on the schema\n"@
        } else {
            t
        }
    } else if warnings > 0 {
        let t = name + " is valid, but with a few warnings\n"@;
        if d.print_schema_url {
            t + "See https://getcomposer.org/doc/04-schema.md for details on the schema\n"@
        } else {
            t
        }
    } else {
        ""@
    }
}

/// How bad trouble with the lock file is.
pub open spec fn lock_trouble(d: Demands) -> Seq<char> {
    if d.check_lock {
        "errors"@
    } else {
        "warnings"@
    }
}

/// The report on the standard output: the verdict where nothing is wrong but, perhaps,
/// the lock file.
pub open spec fn verdict_out(
    name: Seq<char>,
    errors: nat,
    publish: nat,
    warnings: nat,
    lock: nat,
    d: Demands,
) -> Seq<char> {
    if errors > 0 || (d.check_publish && publish > 0) || warnings > 0 {
        ""@
    } else if lock > 0 {
        name + " is valid but your composer.lock has some "@ + lock_trouble(d) + "\n"@
    } else {
        name + " is valid\n"@
    }
}

/// The exit code: two for errors that count, one for warnings where they count.
pub open spec fn code_of(errors: nat, publish: nat, warnings: nat, lock: nat, d: Demands) -> int {
    if errors > 0 || (d.check_publish && publish > 0) || (d.check_lock && lock > 0) {
        2
    } else if d.strict && warnings > 0 {
        1
    } else {
        0
    }
}

/// The report on the standard error.
pub open spec fn report_err(
    name: Seq<char>,
    errors: Seq<Seq<char>>,
    publish: Seq<Seq<char>>,
    warnings: Seq<Seq<char>>,
    lock: Seq<Seq<char>>,
    d: Demands,
) -> Seq<char> {
    let head = verdict_err(name, errors.len(), publish.len(), warnings.len(), d);
    let a = section(head, "# General errors\n"@, "- "@, errors);
    let b = if d.check_publish {
        section(a, "# Publish errors\n"@, "- "@, publish)
    } else {
        a
    };
    let c = section(b, "# General warnings\n"@, "- "@, warnings);
    section(c, "# Lock file "@ + lock_trouble(d) + "\n"@, ""@, lock)
}

fn write_section(out: &mut String, heading: &str, mark: &str, list: &Vec<String>)
    ensures
        final(out)@ == section(old(out)@, heading@, mark@, views(list@)),
{
    let ghost all = views(list@);
    assert(all.len() == list.len());
    if list.len() > 0 {
        out.append(heading);
        let ghost head = out@;
        let mut i: usize = 0;
        while i < list.len()
            invariant
                i <= list.len(),
                all == views(list@),
                out@ == listed(head, mark@, all, i as int),
            decreases list.len() - i,
        {
            assert(all[i as int] == list@[i as int]@);
            out.append(mark);
            out.append(list[i].as_str());
            out.append("\n");
            i += 1;
        }
    }
}

fn write_verdict(name: &str, v: &ManifestValidation, d: &Demands) -> (r: String)
    ensures
        r@ == verdict_err(
            name@,
            v.errors@.len(),
            v.publish_errors@.len(),
            v.warnings@.len(),
            *d,
        ),
{
    if v.errors.len() > 0 {
        name.to_owned().concat(" is invalid, the following errors/warnings were found:\n")
    } else if d.check_publish && v.publish_errors.len() > 0 {
        let t = name.to_owned().concat(" is valid for simple usage with Composer but has\n").concat(
            "strict errors that make it unable to be published as a package\n",
        );
        if d.print_schema_url {
            t.concat(SCHEMA)
        } else {
            t
        }
    } else if v.warnings.len() > 0 {
        let t = name.to_owned().concat(" is valid, but with a few warnings\n");
        if d.print_schema_url {
            t.concat(SCHEMA)
        } else {
            t
        }
    } else {
        "".to_owned()
    }
}

/// The report on a manifest.
pub fn output_result(
    name: &str,
    validation: &ManifestValidation,
    lock_errors: &Vec<String>,
    demands: &Demands,
) -> (r: Report)
    ensures
        r.err@ == report_err(
            name@,
            views(validation.errors@),
            views(validation.publish_errors@),
            views(validation.warnings@),
            views(lock_errors@),
            *demands,
        ),
        r.out@ == verdict_out(
            name@,
            validation.errors@.len(),
            validation.publish_errors@.len(),
            validation.warnings@.len(),
            lock_errors@.len(),
            *demands,
        ),
        r.code == code_of(
            validation.errors@.len(),
            validation.publish_errors@.len(),
            validation.warnings@.len(),
            lock_errors@.len(),
            *demands,
        ),
{
    let trouble = if demands.check_lock {
        "errors"
    } else {
        "warnings"
    };
    let errors = validation.errors.len() > 0;
    let publish = demands.check_publish && validation.publish_errors.len() > 0;
    let warnings = validation.warnings.len() > 0;
    let out = if errors || publish || warnings {
        "".to_owned()
    } else if lock_errors.len() > 0 {
        name.to_owned().concat(" is valid but your composer.lock has some ").concat(
            trouble,
        ).concat("\n")
    } else {
        name.to_owned().concat(" is valid\n")
    };
    let mut err = write_verdict(name, validation, demands);
    write_section(&mut err, "# General errors\n", "- ", &validation.errors);
    if demands.check_publish {
        write_section(&mut err, "# Publish errors\n", "- ", &validation.publish_errors);
    }
    write_section(&mut err, "# General warnings\n", "- ", &validation.warnings);
    let heading = "# Lock file ".to_owned().concat(trouble).concat("\n");
    write_section(&mut err, heading.as_str(), "", lock_errors);
    let code: i32 = if errors || publish || (demands.check_lock && lock_errors.len() > 0) {
        2
    } else if demands.strict && warnings {
        1
    } else {
        0
    };
    Report { out, err, code }
}

// ---------------------------------------------------------------------------
// The lock file against the manifest
// ---------------------------------------------------------------------------
/// A package that may meet a requirement: by its version, or by what it replaces or
/// provides.
#[derive(Debug)]
pub struct LockCandidate {
    pub package_name: String,
    pub package_version: String,
    pub constraint: String,
    pub provider_kind: Option<String>,
}

/// What a candidate is.
pub struct LockCandidateView {
    pub package_name: Seq<char>,
    pub package_version: Seq<char>,
    pub constraint: Seq<char>,
    pub provider_kind: Option<Seq<char>>,
}

impl View for LockCandidate {
    type V = LockCandidateView;

    open spec fn view(&self) -> LockCandidateView {
        LockCandidateView {
            package_name: self.package_name@,
            package_version: self.package_version@,
            constraint: self.constraint@,
            provider_kind: opt(self.provider_kind),
        }
    }
}

/// What the candidates are.
pub open spec fn lock_candidate_views(v: Seq<LockCandidate>) -> Seq<LockCandidateView> {
    v.map_values(|c: LockCandidate| c@)
}

/// The first link from `from` on whose name is the target but for case.
pub open spec fn link_to(l: Pairs, target: Seq<char>, from: int) -> int
    decreases l.len() - from,
{
    if from < 0 || from >= l.len() || ascii_lower(l[from].0) == ascii_lower(target) {
        from
    } else {
        link_to(l, target, from + 1)
    }
}

/// The candidates with the one that a list of links makes of a package.
pub open spec fn with_linked(
    all: Seq<LockCandidateView>,
    target: Seq<char>,
    name: Seq<char>,
    version: Seq<char>,
    l: Pairs,
    kind: Seq<char>,
) -> Seq<LockCandidateView> {
    let at = link_to(l, target, 0);
    if at < l.len() {
        all.push(
            LockCandidateView {
                package_name: name,
                package_version: version,
                constraint: if l[at].1 == "self.version"@ {
                    "="@ + version
                } else {
                    l[at].1
                },
                provider_kind: Some(kind),
            },
        )
    } else {
        all
    }
}

/// The candidates among the first `n` packages.
pub open spec fn locked_candidates(target: Seq<char>, packages: Seq<LockedPackage>, n: int) -> Seq<
    LockCandidateView,
>
    decreases n,
{
    if n <= 0 || n > packages.len() {
        Seq::empty()
    } else {
        let p = packages[n - 1];
        let t = locked_candidates(target, packages, n - 1);
        let own = if ascii_lower(p.name@) == ascii_lower(target) {
            t.push(
                LockCandidateView {
                    package_name: p.name@,
                    package_version: p.version@,
                    constraint: p.version@,
                    provider_kind: None,
                },
            )
        } else {
            t
        };
        with_linked(
            with_linked(own, target, p.name@, p.version@, links(p.replace), "replaced"@),
            target,
            p.name@,
            p.version@,
            links(p.provide),
            "provided"@,
        )
    }
}

/// The candidates for a requirement: those of the packages, and what the project itself
/// replaces or provides.
pub open spec fn candidates_of(
    target: Seq<char>,
    packages: Seq<LockedPackage>,
    composer: ComposerJson,
) -> Seq<LockCandidateView> {
    let name = match composer.name {
        Some(n) => n@,
        None => "__root__"@,
    };
    let version = match composer.version {
        Some(v) => v@,
        None => "1.0.0"@,
    };
    with_linked(
        with_linked(
            locked_candidates(target, packages, packages.len() as int),
            target,
            name,
            version,
            links(composer.replace),
            "replaced"@,
        ),
        target,
        name,
        version,
        links(composer.provide),
        "provided"@,
    )
}

fn same_name(a: &str, b: &str) -> (r: bool)
    ensures
        r == (ascii_lower(a@) == ascii_lower(b@)),
{
    str_equal(to_ascii_lowercase(a).as_str(), to_ascii_lowercase(b).as_str())
}

fn put_candidate(out: &mut Vec<LockCandidate>, c: LockCandidate)
    ensures
        lock_candidate_views(final(out)@) == lock_candidate_views(old(out)@).push(c@),
{
    let ghost before = lock_candidate_views(out@);
    out.push(c);
    assert(lock_candidate_views(out@) =~= before.push(c@));
}

fn add_link_candidates(
    out: &mut Vec<LockCandidate>,
    target: &str,
    name: &str,
    version: &str,
    linked: &IndexMap<String, String>,
    kind: &str,
)
    ensures
        lock_candidate_views(final(out)@) == with_linked(
            lock_candidate_views(old(out)@),
            target@,
            name@,
            version@,
            links(*linked),
            kind@,
        ),
{
    let ghost l = links(*linked);
    let n: usize = link_count(linked);
    let mut i: usize = 0;
    while i < n
        invariant
            i <= n,
            n == l.len(),
            l == links(*linked),
            out@ == old(out)@,
            link_to(l, target@, 0) == link_to(l, target@, i as int),
        decreases n - i,
    {
        if let Some(e) = link_entry(linked, i) {
            assert(l[i as int] == (e.0@, e.1@));
            if same_name(e.0, target) {
                let constraint = if str_equal(e.1, "self.version") {
                    "=".to_owned().concat(version)
                } else {
                    e.1.to_owned()
                };
                put_candidate(
                    out,
                    LockCandidate {
                        package_name: name.to_owned(),
                        package_version: version.to_owned(),
                        constraint,
                        provider_kind: Some(kind.to_owned()),
                    },
                );
                return ;
            }
        }
        i += 1;
    }
}

/// The candidates for a requirement.
pub fn lock_candidates(target: &str, packages: &Vec<LockedPackage>, composer: &ComposerJson) -> (r:
    Vec<LockCandidate>)
    ensures
        lock_candidate_views(r@) == candidates_of(target@, packages@, *composer),
{
    let mut out: Vec<LockCandidate> = Vec::new();
    let mut i: usize = 0;
    assert(lock_candidate_views(out@) =~= locked_candidates(target@, packages@, 0));
    while i < packages.len()
        invariant
            i <= packages.len(),
            lock_candidate_views(out@) == locked_candidates(target@, packages@, i as int),
        decreases packages.len() - i,
    {
        let p = &packages[i];
        if same_name(p.name.as_str(), target) {
            put_candidate(
                &mut out,
                LockCandidate {
                    package_name: p.name.clone(),
                    package_version: p.version.clone(),
                    constraint: p.version.clone(),
                    provider_kind: None,
                },
            );
        }
        add_link_candidates(
            &mut out,
            target,
            p.name.as_str(),
            p.version.as_str(),
            &p.replace,
            "replaced",
        );
        add_link_candidates(
            &mut out,
            target,
            p.name.as_str(),
            p.version.as_str(),
            &p.provide,
            "provided",
        );
        i += 1;
    }
    let name = match &composer.name {
        Some(n) => n.as_str(),
        None => "__root__",
    };
    let version = match &composer.version {
        Some(v) => v.as_str(),
        None => "1.0.0",
    };
    add_link_candidates(&mut out, target, name, version, &composer.replace, "replaced");
    add_link_candidates(&mut out, target, name, version, &composer.provide, "provided");
    out
}

/// For one requirement: whether each candidate meets it, `None` where the constraint
/// cannot be read.
pub type Answers = Option<Vec<bool>>;

/// One of the first `n` candidates meets the requirement.
pub open spec fn some_meets(answers: Seq<bool>, n: int) -> bool {
    exists|k: int| 0 <= k < n && k < answers.len() && #[trigger] answers[k]
}

/// The requirement counts: it asks for a package, by a constraint that can be read.
pub open spec fn counts(link: (Seq<char>, Seq<char>), answers: Answers) -> bool {
    !platform(link.0) && link.1 != "self.version"@ && answers is Some
}

/// What is said of a requirement that no candidate meets.
pub open spec fn complaint(
    description: Seq<char>,
    link: (Seq<char>, Seq<char>),
    candidates: Seq<LockCandidateView>,
) -> Seq<char> {
    if candidates.len() > 0 {
        let c = candidates[0];
        let installed = match c.provider_kind {
            Some(kind) => kind + " as "@ + c.constraint + " by "@ + c.package_name + " "@
                + c.package_version,
            None => c.package_version,
        };
        "- "@ + description + " package \""@ + link.0 + "\" is in the lock file as \""@ + installed
            + "\" but that does not satisfy your constraint \""@ + link.1 + "\"."@
    } else {
        "- "@ + description + " package \""@ + link.0 + "\" is not present in the lock file."@
    }
}

/// The requirement counts and no candidate meets it.
pub open spec fn is_unmet(
    link: (Seq<char>, Seq<char>),
    packages: Seq<LockedPackage>,
    composer: ComposerJson,
    answers: Answers,
) -> bool {
    counts(link, answers) && !some_meets(
        answers->0@,
        candidates_of(link.0, packages, composer).len() as int,
    )
}

/// What is said of the first `n` requirements.
pub open spec fn complaints(
    description: Seq<char>,
    l: Pairs,
    packages: Seq<LockedPackage>,
    composer: ComposerJson,
    answers: Seq<Answers>,
    n: int,
) -> Seq<Seq<char>>
    decreases n,
{
    if n <= 0 || n > l.len() || n > answers.len() {
        Seq::empty()
    } else {
        let t = complaints(description, l, packages, composer, answers, n - 1);
        if is_unmet(l[n - 1], packages, composer, answers[n - 1]) {
            t.push(
                complaint(
                    description,
                    l[n - 1],
                    candidates_of(l[n - 1].0, packages, composer),
                ),
            )
        } else {
            t
        }
    }
}

fn meets(answers: &Vec<bool>, n: usize) -> (r: bool)
    ensures
        r == some_meets(answers@, n as int),
{
    let mut i: usize = 0;
    while i < answers.len() && i < n
        invariant
            i <= answers.len(),
            i <= n,
            forall|k: int| 0 <= k < i ==> !#[trigger] answers@[k],
        decreases answers.len() - i,
    {
        if answers[i] {
            return true;
        }
        i += 1;
    }
    false
}

fn complain(description: &str, target: &str, constraint: &str, candidates: &Vec<LockCandidate>)
    -> (r: String)
    ensures
        r@ == complaint(
            description@,
            (target@, constraint@),
            lock_candidate_views(candidates@),
        ),
{
    let mut out = "- ".to_owned();
    out.append(description);
    out.append(" package \"");
    out.append(target);
    assert(lock_candidate_views(candidates@).len() == candidates@.len());
    if candidates.len() > 0 {
        let c = &candidates[0];
        assert(lock_candidate_views(candidates@)[0] == c@);
        let installed = match &c.provider_kind {
            Some(kind) => kind.clone().concat(" as ").concat(c.constraint.as_str()).concat(
                " by ",
            ).concat(c.package_name.as_str()).concat(" ").concat(c.package_version.as_str()),
            None => c.package_version.clone(),
        };
        out.append("\" is in the lock file as \"");
        out.append(installed.as_str());
        out.append("\" but that does not satisfy your constraint \"");
        out.append(constraint);
        out.append("\".");
    } else {
        out.append("\" is not present in the lock file.");
    }
    out
}

/// What is said of the requirements of one kind.
pub fn check_requirement_set(
    description: &str,
    requirements: &IndexMap<String, String>,
    packages: &Vec<LockedPackage>,
    composer: &ComposerJson,
    answers: &Vec<Answers>,
) -> (r: Vec<String>)
    requires
        answers@.len() == links(*requirements).len(),
    ensures
        views(r@) == complaints(
            description@,
            links(*requirements),
            packages@,
            *composer,
            answers@,
            links(*requirements).len() as int,
        ),
{
    let ghost l = links(*requirements);
    let n: usize = link_count(requirements);
    let mut out: Vec<String> = Vec::new();
    let mut i: usize = 0;
    assert(views(out@) =~= Seq::empty());
    while i < n
        invariant
            i <= n,
            n == l.len(),
            l == links(*requirements),
            answers@.len() == n,
            views(out@) == complaints(
                description@,
                l,
                packages@,
                *composer,
                answers@,
                i as int,
            ),
        decreases n - i,
    {
        if let Some(e) = link_entry(requirements, i) {
            assert(l[i as int] == (e.0@, e.1@));
            if !is_platform_package(e.0) && !str_equal(e.1, "self.version") {
                if let Some(a) = &answers[i] {
                    let candidates = lock_candidates(e.0, packages, composer);
                    assert(lock_candidate_views(candidates@).len() == candidates@.len());
                    if !meets(a, candidates.len()) {
                        let one = complain(description, e.0, e.1, &candidates);
                        proof {
                            lemma_views_push(out@, one);
                        }
                        out.push(one);
                    }
                }
            }
        }
        i += 1;
    }
    out
}

/// The three lines that follow complaints.
pub open spec fn hints() -> Seq<Seq<char>> {
    Seq::empty().push(
        "This usually happens when composer files are incorrectly merged or the composer.json file is manually edited."@,
    ).push(
        "Read more about correctly resolving merge conflicts https://getcomposer.org/doc/articles/resolving-merge-conflicts.md"@,
    ).push(
        "and prefer using the \"require\" command over editing the composer.json file directly https://getcomposer.org/doc/03-cli.md#require-r"@,
    )
}

/// What is said of the requirements of the manifest.
pub open spec fn requirement_info(
    composer: ComposerJson,
    lock: ComposerLock,
    answers: Seq<Answers>,
    dev_answers: Seq<Answers>,
) -> Seq<Seq<char>> {
    let a = complaints(
        "Required"@,
        links(composer.require),
        lock.packages@,
        composer,
        answers,
        links(composer.require).len() as int,
    ) + complaints(
        "Required (in require-dev)"@,
        links(composer.require_dev),
        lock.packages@ + lock.packages_dev@,
        composer,
        dev_answers,
        links(composer.require_dev).len() as int,
    );
    if a.len() > 0 {
        a + hints()
    } else {
        a
    }
}

proof fn lemma_same_candidates(
    target: Seq<char>,
    a: Seq<LockedPackage>,
    b: Seq<LockedPackage>,
    n: int,
)
    requires
        a.len() == b.len(),
        forall|i: int| 0 <= i < a.len() ==> same_for_candidates(#[trigger] a[i], b[i]),
    ensures
        locked_candidates(target, a, n) == locked_candidates(target, b, n),
    decreases n,
{
    if 0 < n <= a.len() {
        lemma_same_candidates(target, a, b, n - 1);
        assert(same_for_candidates(a[n - 1], b[n - 1]));
    }
}

spec fn same_for_candidates(a: LockedPackage, b: LockedPackage) -> bool {
    a.name@ == b.name@ && a.version@ == b.version@ && links(a.replace) == links(b.replace)
        && links(a.provide) == links(b.provide)
}

proof fn lemma_same_complaints(
    description: Seq<char>,
    l: Pairs,
    a: Seq<LockedPackage>,
    b: Seq<LockedPackage>,
    composer: ComposerJson,
    answers: Seq<Answers>,
    n: int,
)
    requires
        a.len() == b.len(),
        forall|i: int| 0 <= i < a.len() ==> same_for_candidates(#[trigger] a[i], b[i]),
    ensures
        complaints(description, l, a, composer, answers, n) == complaints(
            description,
            l,
            b,
            composer,
            answers,
            n,
        ),
    decreases n,
{
    if 0 < n <= l.len() && n <= answers.len() {
        lemma_same_complaints(description, l, a, b, composer, answers, n - 1);
        lemma_same_candidates(l[n - 1].0, a, b, a.len() as int);
    }
}

fn push_all(out: &mut Vec<String>, more: Vec<String>)
    ensures
        views(final(out)@) == views(old(out)@) + views(more@),
{
    let mut more = more;
    let ghost a = views(out@);
    let ghost b = views(more@);
    out.append(&mut more);
    assert(views(out@) =~= a + b);
}

/// What is said of the requirements of the manifest.
pub fn missing_requirement_info(
    composer: &ComposerJson,
    lock: &ComposerLock,
    answers: &Vec<Answers>,
    dev_answers: &Vec<Answers>,
) -> (r: Vec<String>)
    requires
        answers@.len() == links(composer.require).len(),
        dev_answers@.len() == links(composer.require_dev).len(),
    ensures
        views(r@) == requirement_info(*composer, *lock, answers@, dev_answers@),
{
    let mut all: Vec<LockedPackage> = Vec::new();
    let ghost both = lock.packages@ + lock.packages_dev@;
    let mut i: usize = 0;
    while i < lock.packages.len()
        invariant
            i <= lock.packages.len(),
            both == lock.packages@ + lock.packages_dev@,
            all@.len() == i,
            forall|k: int| 0 <= k < i ==> same_for_candidates(#[trigger] all@[k], both[k]),
        decreases lock.packages.len() - i,
    {
        let one = lock.packages[i].clone();
        assert(both[i as int] == lock.packages@[i as int]);
        assert(same_for_candidates(one, both[i as int]));
        all.push(one);
        i += 1;
    }
    let mut j: usize = 0;
    while j < lock.packages_dev.len()
        invariant
            j <= lock.packages_dev.len(),
            both == lock.packages@ + lock.packages_dev@,
            all@.len() == lock.packages@.len() + j,
            forall|k: int|
                0 <= k < all@.len() ==> same_for_candidates(#[trigger] all@[k], both[k]),
        decreases lock.packages_dev.len() - j,
    {
        let one = lock.packages_dev[j].clone();
        assert(both[lock.packages@.len() + j] == lock.packages_dev@[j as int]);
        assert(same_for_candidates(one, both[lock.packages@.len() + j]));
        all.push(one);
        j += 1;
    }
    let mut out = check_requirement_set(
        "Required",
        &composer.require,
        &lock.packages,
        composer,
        answers,
    );
    let dev = check_requirement_set(
        "Required (in require-dev)",
        &composer.require_dev,
        &all,
        composer,
        dev_answers,
    );
    proof {
        lemma_same_complaints(
            "Required (in require-dev)"@,
            links(composer.require_dev),
            all@,
            both,
            *composer,
            dev_answers@,
            links(composer.require_dev).len() as int,
        );
    }
    push_all(&mut out, dev);
    assert(views(out@).len() == out@.len());
    if out.len() > 0 {
        let more = vec![
            "This usually happens when composer files are incorrectly merged or the composer.json file is manually edited.".to_owned(),
            "Read more about correctly resolving merge conflicts https://getcomposer.org/doc/articles/resolving-merge-conflicts.md".to_owned(),
            "and prefer using the \"require\" command over editing the composer.json file directly https://getcomposer.org/doc/03-cli.md#require-r".to_owned(),
        ];
        assert(views(more@) =~= hints());
        push_all(&mut out, more);
    }
    out
}

/// What is wrong with a lock file: that it is not up to date, and what its packages do not
/// meet. `hash` is that of the manifest.
pub open spec fn lock_problems(
    composer: ComposerJson,
    lock: ComposerLock,
    hash: Seq<char>,
    answers: Seq<Answers>,
    dev_answers: Seq<Answers>,
) -> Seq<Seq<char>> {
    let stale = if lock.content_hash@.len() == 0 || lock.content_hash@ != hash {
        Seq::empty().push(
            "- The lock file is not up to date with the latest changes in composer.json, it is recommended that you run `composer update` or `composer update <package name>`."@,
        )
    } else {
        Seq::empty()
    };
    stale + requirement_info(composer, lock, answers, dev_answers)
}

/// What is wrong with a lock file.
pub fn validate_lock(
    composer: &ComposerJson,
    lock: &ComposerLock,
    hash: &str,
    answers: &Vec<Answers>,
    dev_answers: &Vec<Answers>,
) -> (r: Vec<String>)
    requires
        answers@.len() == links(composer.require).len(),
        dev_answers@.len() == links(composer.require_dev).len(),
    ensures
        views(r@) == lock_problems(*composer, *lock, hash@, answers@, dev_answers@),
{
    let mut out: Vec<String> = Vec::new();
    assert(views(out@) =~= Seq::empty());
    if lock.content_hash.as_str().is_empty() || !str_equal(lock.content_hash.as_str(), hash) {
        let one = "- The lock file is not up to date with the latest changes in composer.json, it is recommended that you run `composer update` or `composer update <package name>`.".to_owned();
        proof {
            lemma_views_push(out@, one);
        }
        out.push(one);
    }
    push_all(&mut out, missing_requirement_info(composer, lock, answers, dev_answers));
    out
}

// ---------------------------------------------------------------------------
// Installed packages
// ---------------------------------------------------------------------------
/// How a dependency is called: by its name, and where it has none, by its path.
pub fn dependency_name(manifest: Option<&Json>, path: &str) -> (r: String)
    ensures
        r@ == match manifest {
            Some(j) => match j@.field("name"@) {
                Some(JsonView::Text(t)) => t,
                _ => path@,
            },
            None => path@,
        },
{
    if let Some(j) = manifest {
        if let Some(Json::Text(t)) = j.get("name") {
            return t.clone();
        }
    }
    path.to_owned()
}

/// Where a path leads from a directory.
pub open spec fn led_to(base: Seq<char>, path: Seq<char>) -> Seq<char> {
    if absolute(path) {
        path
    } else {
        walked(
            base,
            crate::paths::components(path),
            crate::paths::components(path).len() as int,
        )
    }
}

/// The manifests of the first `n` installed packages that have a place.
pub open spec fn manifests_of(packages: Seq<JsonView>, dir: Seq<char>, n: int) -> Seq<Seq<char>>
    decreases n,
{
    if n <= 0 || n > packages.len() {
        Seq::empty()
    } else {
        let t = manifests_of(packages, dir, n - 1);
        match packages[n - 1].field("install-path"@) {
            Some(JsonView::Text(p)) => t.push(joined_path(led_to(dir, p), "composer.json"@)),
            _ => t,
        }
    }
}

/// Where the manifests of the installed packages should be, in the order of the list of
/// installed packages.
pub fn dependency_manifests(installed: &Json, vendor_dir: &str) -> (r: Vec<String>)
    ensures
        views(r@) == match installed@.field("packages"@) {
            Some(JsonView::Array(items)) => manifests_of(
                items,
                joined_path(vendor_dir@, "composer"@),
                items.len() as int,
            ),
            _ => Seq::empty(),
        },
{
    broadcast use lemma_array_view;

    let mut out: Vec<String> = Vec::new();
    assert(views(out@) =~= Seq::empty());
    let dir = join_path(vendor_dir, "composer");
    if let Some(Json::Array(items)) = installed.get("packages") {
        let ghost all = items_view(items@);
        let mut i: usize = 0;
        while i < items.len()
            invariant
                i <= items.len(),
                all == items_view(items@),
                dir@ == joined_path(vendor_dir@, "composer"@),
                views(out@) == manifests_of(all, dir@, i as int),
            decreases items.len() - i,
        {
            assert(all[i as int] == items@[i as int]@);
            if let Some(Json::Text(p)) = items[i].get("install-path") {
                let one = join_path(
                    lexical_join(dir.as_str(), p.as_str()).as_str(),
                    "composer.json",
                );
                proof {
                    lemma_views_push(out@, one);
                }
                out.push(one);
            }
            i += 1;
        }
    }
    out
}

/// A path with the mark between names in front of every other character: in the order of these
/// texts a directory comes before all that has its name for a beginning.
pub open spec fn directory_order(path: Seq<char>) -> Seq<char> {
    path.map_values(|c: char| marked(c))
}

/// The mark between names in front of every other character.
pub open spec fn marked(c: char) -> char {
    if c == '/' {
        '\0'
    } else {
        c
    }
}

/// No file has such a character in its path.
pub open spec fn is_path(path: Seq<char>) -> bool {
    forall|i: int| 0 <= i < path.len() ==> #[trigger] path[i] != '\0'
}

fn order_key(path: &str) -> (r: String)
    ensures
        r@ == directory_order(path@),
{
    let v = crate::text::chars_of(path);
    let mut out = String::new();
    let mut i: usize = 0;
    assert(out@ =~= directory_order(path@).take(0));
    while i < v.len()
        invariant
            i <= v.len(),
            v@ == path@,
            out@ == directory_order(path@).take(i as int),
        decreases v.len() - i,
    {
        if v[i] == '/' {
            out.push('\0');
        } else {
            out.push(v[i]);
        }
        i += 1;
        assert(out@ =~= directory_order(path@).take(i as int));
    }
    assert(directory_order(path@).take(i as int) =~= directory_order(path@));
    out
}

proof fn lemma_order_tells_paths(a: Seq<char>, b: Seq<char>)
    requires
        is_path(a),
        is_path(b),
        directory_order(a) == directory_order(b),
    ensures
        a == b,
{
    assert(directory_order(a).len() == a.len());
    assert(directory_order(b).len() == b.len());
    assert forall|i: int| 0 <= i < a.len() implies a[i] == b[i] by {
        assert(directory_order(a)[i] == marked(a[i]));
        assert(directory_order(b)[i] == marked(b[i]));
        assert(a[i] != '\0' && b[i] != '\0');
    }
    assert(a =~= b);
}

/// The paths in order, directory by directory, each once.
pub fn in_order(paths: &Vec<String>) -> (r: Vec<String>)
    requires
        forall|i: int| 0 <= i < paths@.len() ==> is_path((#[trigger] paths@[i])@),
    ensures
        views(r@).to_set() == views(paths@).to_set(),
        forall|i: int, j: int|
            0 <= i < j < r@.len() ==> precedes(
                directory_order((#[trigger] r@[i])@),
                directory_order((#[trigger] r@[j])@),
            ),
{
    let ghost all = views(paths@);
    let mut keys: Vec<(String, ())> = Vec::new();
    let mut out: Vec<String> = Vec::new();
    let mut i: usize = 0;
    assert(views(out@).to_set() =~= all.take(0).to_set());
    while i < paths.len()
        invariant
            i <= paths.len(),
            all == views(paths@),
            all.len() == paths@.len(),
            forall|k: int| 0 <= k < paths@.len() ==> is_path((#[trigger] paths@[k])@),
            forall|k: int| 0 <= k < out@.len() ==> is_path((#[trigger] out@[k])@),
            keys.len() == out.len(),
            ascending(names_of(keys@)),
            forall|k: int|
                0 <= k < out@.len() ==> (#[trigger] keys@[k]).0@ == directory_order(out@[k]@),
            views(out@).to_set() == all.take(i as int).to_set(),
        decreases paths.len() - i,
    {
        let path = paths[i].as_str();
        let key = order_key(path);
        let at: usize = find_place(&keys, key.as_str());
        let ghost names = names_of(keys@);
        let ghost before = out@;
        proof {
            lemma_ascending(names, key@);
            lemma_place(names, key@);
            assert(all[i as int] == path@);
            assert(all.take(i + 1) =~= all.take(i as int).push(path@));
        }
        if is_at(&keys, at, key.as_str()) {
            proof {
                assert(names[at as int] == keys@[at as int].0@);
                lemma_order_tells_paths(out@[at as int]@, path@);
                assert(views(out@)[at as int] == path@);
                assert(views(out@).contains(path@));
                assert(views(out@).to_set().contains(path@));
            }
        } else {
            keys.insert(at, (key, ()));
            out.insert(at, path.to_owned());
            proof {
                assert(names_of(keys@) =~= names.insert(at as int, key@));
                assert(views(out@) =~= views(before).insert(at as int, path@));
                assert forall|k: int| 0 <= k < out@.len() implies (#[trigger] keys@[k]).0@
                    == directory_order(out@[k]@) by {
                    if k < at {
                        assert(out@[k] == before[k]);
                    } else if k > at {
                        assert(out@[k] == before[k - 1]);
                    }
                }
                assert forall|k: int| 0 <= k < out@.len() implies is_path(
                    (#[trigger] out@[k])@,
                ) by {
                    if k < at {
                        assert(out@[k] == before[k]);
                    } else if k > at {
                        assert(out@[k] == before[k - 1]);
                    }
                }
            }
        }
        proof {
            assert forall|p: Seq<char>| views(out@).to_set().contains(p) == all.take(
                i + 1,
            ).to_set().contains(p) by {
                lemma_set_grows(all.take(i as int), path@, p);
                if views(out@) != views(before) {
                    lemma_insert_grows(views(before), at as int, path@, p);
                }
            }
            assert(views(out@).to_set() =~= all.take(i + 1).to_set());
        }
        i += 1;
    }
    proof {
        assert(all.take(i as int) =~= all);
        assert forall|a: int, b: int| 0 <= a < b < out@.len() implies precedes(
            directory_order((#[trigger] out@[a])@),
            directory_order((#[trigger] out@[b])@),
        ) by {
            assert(names_of(keys@)[a] == keys@[a].0@);
            assert(names_of(keys@)[b] == keys@[b].0@);
        }
    }
    out
}

proof fn lemma_set_grows(s: Seq<Seq<char>>, x: Seq<char>, p: Seq<char>)
    ensures
        s.push(x).to_set().contains(p) == (p == x || s.to_set().contains(p)),
{
    if s.to_set().contains(p) {
        let k = choose|k: int| 0 <= k < s.len() && s[k] == p;
        assert(s.push(x)[k] == p);
    }
    assert(s.push(x)[s.len() as int] == x);
    if s.push(x).to_set().contains(p) {
        let k = choose|k: int| 0 <= k < s.len() + 1 && s.push(x)[k] == p;
        if k < s.len() {
            assert(s[k] == p);
        }
    }
}

proof fn lemma_insert_grows(s: Seq<Seq<char>>, at: int, x: Seq<char>, p: Seq<char>)
    requires
        0 <= at <= s.len(),
    ensures
        s.insert(at, x).to_set().contains(p) == (p == x || s.to_set().contains(p)),
{
    let t = s.insert(at, x);
    assert(t[at] == x);
    if s.to_set().contains(p) {
        let k = choose|k: int| 0 <= k < s.len() && s[k] == p;
        if k < at {
            assert(t[k] == p);
        } else {
            assert(t[k + 1] == p);
        }
    }
    if t.to_set().contains(p) {
        let k = choose|k: int| 0 <= k < t.len() && t[k] == p;
        if k < at {
            assert(s[k] == p);
        } else if k > at {
            assert(s[k - 1] == p);
        }
    }
}

// ---------------------------------------------------------------------------
// What holds of it
// ---------------------------------------------------------------------------
/// Where warnings count, the exit code differs only by a one in place of a zero, and only
/// where there are warnings.
pub proof fn law_strict_minds_warnings_only(
    errors: nat,
    publish: nat,
    warnings: nat,
    lock: nat,
    lenient: Demands,
    strict: Demands,
)
    requires
        !lenient.strict,
        strict.strict,
        lenient.check_publish == strict.check_publish,
        lenient.check_lock == strict.check_lock,
    ensures
        code_of(errors, publish, warnings, lock, strict) == if code_of(
            errors,
            publish,
            warnings,
            lock,
            lenient,
        ) == 0 && warnings > 0 {
            1
        } else {
            code_of(errors, publish, warnings, lock, lenient)
        },
{
}

/// Nothing is said of the requirements exactly where each that counts is met.
pub proof fn law_no_complaint_means_met(
    description: Seq<char>,
    l: Pairs,
    packages: Seq<LockedPackage>,
    composer: ComposerJson,
    answers: Seq<Answers>,
    n: int,
)
    requires
        0 <= n <= l.len(),
        answers.len() == l.len(),
    ensures
        complaints(description, l, packages, composer, answers, n).len() == 0 <==> forall|i: int|
            0 <= i < n ==> !is_unmet(#[trigger] l[i], packages, composer, answers[i]),
    decreases n,
{
    if n > 0 {
        law_no_complaint_means_met(description, l, packages, composer, answers, n - 1);
    }
}

} // verus!
