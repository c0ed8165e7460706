//! The command `check-platform-reqs`: whether PHP and its extensions are what the
//! packages ask for.
use vstd::prelude::*;
use vstd::string::*;

use indexmap::IndexMap;

use crate::commands::laws::{candidate_for, law_packages_offer_what_they_provide};
use crate::json::{
    add_entry, entries_view, items_view, lemma_array_view, lemma_items_push, lemma_object_view,
    text, Entries, Json, JsonView,
};
use crate::json_text::{parse, parsed, pretty, print_pretty};
use crate::links::{copy_links, link_count, link_entry, links, Pairs};
use crate::lock::{opt, ComposerLock, LockedPackage};
use crate::names::{is_platform_package, platform, NameSet};
use crate::package::Package;
use crate::schema::ComposerJson;
use crate::sorted::{
    ascending, find_place, is_at, lemma_ascending, lemma_place, names_of,
};
use crate::text::{byte_len, lowercase, pad, padded, str_equal, to_lowercase};

verus! {

/// What the user asks of the command.
#[derive(Debug)]
pub struct CheckPlatformReqsArgs {
    /// Leave packages for development out.
    pub no_dev: bool,
    /// Go by the lock file alone.
    pub lock: bool,
    /// `text` or `json`.
    pub format: String,
    pub working_dir: String,
}

/// What counts of a package here.
#[derive(Debug)]
pub struct PackageMetadata {
    pub name: String,
    pub version: String,
    pub require: IndexMap<String, String>,
    pub provide: IndexMap<String, String>,
    pub replace: IndexMap<String, String>,
}

/// What counts of a locked package.
pub open spec fn counts_of_locked(m: PackageMetadata, p: LockedPackage) -> bool {
    m.name@ == p.name@ && m.version@ == p.version@ && links(m.require) == links(p.require)
        && links(m.provide) == links(p.provide) && links(m.replace) == links(p.replace)
}

/// What counts of an installed package.
pub open spec fn counts_of_installed(m: PackageMetadata, p: Package) -> bool {
    m.name@ == p.name@ && m.version@ == p.shown_version() && links(m.require) == links(p.require)
        && links(m.provide) == links(p.provide) && links(m.replace) == links(p.replace)
}

impl PackageMetadata {
    pub fn of_locked(p: &LockedPackage) -> (r: PackageMetadata)
        ensures
            counts_of_locked(r, *p),
    {
        PackageMetadata {
            name: p.name.clone(),
            version: p.version.clone(),
            require: copy_links(&p.require),
            provide: copy_links(&p.provide),
            replace: copy_links(&p.replace),
        }
    }

    pub fn of_installed(p: &Package) -> (r: PackageMetadata)
        ensures
            counts_of_installed(r, *p),
    {
        PackageMetadata {
            name: p.name.clone(),
            version: p.pretty_version().to_owned(),
            require: copy_links(&p.require),
            provide: copy_links(&p.provide),
            replace: copy_links(&p.replace),
        }
    }
}

// ---------------------------------------------------------------------------
// Which packages count
// ---------------------------------------------------------------------------
/// The texts among the first `n` values, in lower case.
pub open spec fn lower_texts(items: Seq<JsonView>, n: int) -> Set<Seq<char>>
    decreases n,
{
    if n <= 0 || n > items.len() {
        Set::empty()
    } else {
        let t = lower_texts(items, n - 1);
        match items[n - 1] {
            JsonView::Text(s) => t.insert(lowercase(s)),
            _ => t,
        }
    }
}

/// The names of the first `n` packages, in lower case.
pub open spec fn lower_names(packages: Seq<LockedPackage>, n: int) -> Set<Seq<char>>
    decreases n,
{
    if n <= 0 || n > packages.len() {
        Set::empty()
    } else {
        lower_names(packages, n - 1).insert(lowercase(packages[n - 1].name@))
    }
}

/// The names of the packages for development: those that the list of installed packages
/// names, and where it names none, those of the lock file.
pub open spec fn dev_names(installed: Option<JsonView>, lock: Option<ComposerLock>) -> Set<
    Seq<char>,
> {
    match installed {
        Some(j) if j.field("dev-package-names"@) matches Some(JsonView::Array(_)) => {
            let items = j.field("dev-package-names"@)->0->Array_0;
            lower_texts(items, items.len() as int)
        },
        _ => match lock {
            Some(l) => lower_names(l.packages_dev@, l.packages_dev@.len() as int),
            None => Set::empty(),
        },
    }
}

fn names_in(items: &Vec<Json>) -> (r: NameSet)
    ensures
        r@ == lower_texts(items_view(items@), items@.len() as int),
{
    let ghost all = items_view(items@);
    let mut out = NameSet::new();
    let mut i: usize = 0;
    while i < items.len()
        invariant
            i <= items.len(),
            all == items_view(items@),
            out@ == lower_texts(all, i as int),
        decreases items.len() - i,
    {
        assert(all[i as int] == items@[i as int]@);
        if let Json::Text(s) = &items[i] {
            out.insert(to_lowercase(s.as_str()).as_str());
        }
        i += 1;
    }
    out
}

/// The names of the packages for development, given the text of the list of installed packages
/// where there is one. A text that is no JSON names none.
pub fn installed_dev_names_in(text: Option<&str>, lock: Option<&ComposerLock>) -> (r: NameSet)
    ensures
        r@ == dev_names(
            match text {
                Some(t) => parsed(t@),
                None => None,
            },
            match lock {
                Some(l) => Some(*l),
                None => None,
            },
        ),
{
    let installed = match text {
        Some(t) => parse(t),
        None => None,
    };
    installed_dev_package_names(installed.as_ref(), lock)
}

/// The names of the packages for development.
pub fn installed_dev_package_names(installed: Option<&Json>, lock: Option<&ComposerLock>) -> (r:
    NameSet)
    ensures
        r@ == dev_names(
            match installed {
                Some(j) => Some(j@),
                None => None,
            },
            match lock {
                Some(l) => Some(*l),
                None => None,
            },
        ),
{
    broadcast use lemma_array_view;

    if let Some(j) = installed {
        if let Some(Json::Array(items)) = j.get("dev-package-names") {
            return names_in(items);
        }
    }
    let mut out = NameSet::new();
    if let Some(l) = lock {
        let mut i: usize = 0;
        while i < l.packages_dev.len()
            invariant
                i <= l.packages_dev.len(),
                out@ == lower_names(l.packages_dev@, i as int),
            decreases l.packages_dev.len() - i,
        {
            out.insert(to_lowercase(l.packages_dev[i].name.as_str()).as_str());
            i += 1;
        }
    }
    out
}

/// The packages among the first `n` that are not for development.
pub open spec fn kept_installed(installed: Seq<Package>, dev: Set<Seq<char>>, n: int) -> Seq<
    Package,
>
    decreases n,
{
    if n <= 0 || n > installed.len() {
        Seq::empty()
    } else {
        let t = kept_installed(installed, dev, n - 1);
        if dev.contains(installed[n - 1].name@) {
            t
        } else {
            t.push(installed[n - 1])
        }
    }
}

/// What counts of the installed packages that are not in `dev`.
pub fn installed_metadata(installed: &Vec<Package>, dev: &NameSet) -> (r: Vec<PackageMetadata>)
    ensures
        r@.len() == kept_installed(installed@, dev@, installed@.len() as int).len(),
        forall|i: int|
            0 <= i < r@.len() ==> counts_of_installed(
                #[trigger] r@[i],
                kept_installed(installed@, dev@, installed@.len() as int)[i],
            ),
{
    let mut out: Vec<PackageMetadata> = Vec::new();
    let mut i: usize = 0;
    while i < installed.len()
        invariant
            i <= installed.len(),
            out@.len() == kept_installed(installed@, dev@, i as int).len(),
            forall|k: int|
                0 <= k < out@.len() ==> counts_of_installed(
                    #[trigger] out@[k],
                    kept_installed(installed@, dev@, i as int)[k],
                ),
        decreases installed.len() - i,
    {
        if !dev.contains(installed[i].name.as_str()) {
            out.push(PackageMetadata::of_installed(&installed[i]));
        }
        i += 1;
    }
    out
}

/// What counts of the locked packages, those for development last, or left out.
pub fn locked_metadata(lock: &ComposerLock, no_dev: bool) -> (r: Vec<PackageMetadata>)
    ensures
        r@.len() == lock.packages@.len() + if no_dev {
            0
        } else {
            lock.packages_dev@.len()
        },
        forall|i: int|
            0 <= i < r@.len() ==> counts_of_locked(
                #[trigger] r@[i],
                (lock.packages@ + lock.packages_dev@)[i],
            ),
{
    let ghost all = lock.packages@ + lock.packages_dev@;
    let mut out: Vec<PackageMetadata> = Vec::new();
    let mut i: usize = 0;
    while i < lock.packages.len()
        invariant
            i <= lock.packages.len(),
            all == lock.packages@ + lock.packages_dev@,
            out@.len() == i,
            forall|k: int| 0 <= k < i ==> counts_of_locked(#[trigger] out@[k], all[k]),
        decreases lock.packages.len() - i,
    {
        assert(all[i as int] == lock.packages@[i as int]);
        out.push(PackageMetadata::of_locked(&lock.packages[i]));
        i += 1;
    }
    if !no_dev {
        let mut j: usize = 0;
        while j < lock.packages_dev.len()
            invariant
                j <= lock.packages_dev.len(),
                all == lock.packages@ + lock.packages_dev@,
                out@.len() == lock.packages@.len() + j,
                forall|k: int|
                    0 <= k < out@.len() ==> counts_of_locked(#[trigger] out@[k], all[k]),
            decreases lock.packages_dev.len() - j,
        {
            assert(all[lock.packages@.len() + j] == lock.packages_dev@[j as int]);
            out.push(PackageMetadata::of_locked(&lock.packages_dev[j]));
            j += 1;
        }
    }
    out
}

// ---------------------------------------------------------------------------
// What is asked for
// ---------------------------------------------------------------------------
/// Something that a package asks for.
#[derive(Debug)]
pub struct Requirement {
    pub source: String,
    pub kind: String,
    pub target: String,
    pub constraint: String,
}

/// What a requirement says.
pub struct RequirementView {
    pub source: Seq<char>,
    pub kind: Seq<char>,
    pub target: Seq<char>,
    pub constraint: Seq<char>,
}

impl View for Requirement {
    type V = RequirementView;

    open spec fn view(&self) -> RequirementView {
        RequirementView {
            source: self.source@,
            kind: self.kind@,
            target: self.target@,
            constraint: self.constraint@,
        }
    }
}

impl Requirement {
    fn copy(&self) -> (r: Requirement)
        ensures
            r@ == self@,
    {
        Requirement {
            source: self.source.clone(),
            kind: self.kind.clone(),
            target: self.target.clone(),
            constraint: self.constraint.clone(),
        }
    }
}

/// What the requirements say.
pub open spec fn requirement_views(v: Seq<Requirement>) -> Seq<RequirementView> {
    v.map_values(|r: Requirement| r@)
}

/// What one list of links asks for.
pub open spec fn asked_by(source: Seq<char>, kind: Seq<char>, l: Pairs) -> Seq<RequirementView> {
    l.map_values(
        |p: (Seq<char>, Seq<char>)|
            RequirementView { source, kind, target: lowercase(p.0), constraint: p.1 },
    )
}

/// What the first `n` packages ask for.
pub open spec fn asked_by_packages(packages: Seq<PackageMetadata>, n: int) -> Seq<RequirementView>
    decreases n,
{
    if n <= 0 || n > packages.len() {
        Seq::empty()
    } else {
        asked_by_packages(packages, n - 1) + asked_by(
            packages[n - 1].name@,
            "requires"@,
            links(packages[n - 1].require),
        )
    }
}

/// Everything that is asked for: by the project, and by the packages.
pub open spec fn all_asked(
    composer: ComposerJson,
    packages: Seq<PackageMetadata>,
    no_dev: bool,
) -> Seq<RequirementView> {
    asked_by("__root__"@, "requires"@, links(composer.require)) + (if no_dev {
        Seq::empty()
    } else {
        asked_by("__root__"@, "requires (for development)"@, links(composer.require_dev))
    }) + asked_by_packages(packages, packages.len() as int)
}

/// What is asked of one target among the first `n` requirements.
pub open spec fn asked_of(all: Seq<RequirementView>, target: Seq<char>, n: int) -> Seq<
    RequirementView,
>
    decreases n,
{
    if n <= 0 || n > all.len() {
        Seq::empty()
    } else {
        let t = asked_of(all, target, n - 1);
        if all[n - 1].target == target {
            t.push(all[n - 1])
        } else {
            t
        }
    }
}

/// Something is asked of the target.
pub open spec fn is_asked(all: Seq<RequirementView>, target: Seq<char>) -> bool {
    exists|i: int| 0 <= i < all.len() && #[trigger] all[i].target == target
}

/// The requirements of PHP and its extensions, grouped by what is asked for, in the order
/// of the names.
pub open spec fn grouped(
    groups: Seq<(String, Vec<Requirement>)>,
    all: Seq<RequirementView>,
) -> bool {
    &&& ascending(names_of(groups))
    &&& forall|name: Seq<char>| #[trigger]
        names_of(groups).contains(name) <==> platform(name) && is_asked(all, name)
    &&& forall|i: int|
        0 <= i < groups.len() ==> requirement_views((#[trigger] groups[i]).1@) == asked_of(
            all,
            groups[i].0@,
            all.len() as int,
        )
}

fn add_requirements(
    out: &mut Vec<Requirement>,
    source: &str,
    kind: &str,
    asked: &IndexMap<String, String>,
)
    ensures
        requirement_views(final(out)@) == requirement_views(old(out)@) + asked_by(
            source@,
            kind@,
            links(*asked),
        ),
{
    let ghost start = requirement_views(out@);
    let ghost l = links(*asked);
    let n: usize = link_count(asked);
    let mut i: usize = 0;
    while i < n
        invariant
            i <= n,
            n == l.len(),
            l == links(*asked),
            requirement_views(out@) =~= start + asked_by(source@, kind@, l.take(i as int)),
        decreases n - i,
    {
        if let Some(e) = link_entry(asked, i) {
            let one = Requirement {
                source: source.to_owned(),
                kind: kind.to_owned(),
                target: to_lowercase(e.0),
                constraint: e.1.to_owned(),
            };
            let ghost before = requirement_views(out@);
            out.push(one);
            assert(requirement_views(out@) =~= before.push(one@));
            assert(l.take(i + 1) =~= l.take(i as int).push(l[i as int]));
        }
        i += 1;
    }
    assert(l.take(n as int) =~= l);
}

fn pick(all: &Vec<Requirement>, target: &str) -> (r: Vec<Requirement>)
    ensures
        requirement_views(r@) == asked_of(requirement_views(all@), target@, all@.len() as int),
{
    let ghost a = requirement_views(all@);
    let mut out: Vec<Requirement> = Vec::new();
    let mut i: usize = 0;
    assert(requirement_views(out@) =~= asked_of(a, target@, 0));
    while i < all.len()
        invariant
            i <= all.len(),
            a == requirement_views(all@),
            requirement_views(out@) == asked_of(a, target@, i as int),
        decreases all.len() - i,
    {
        assert(a[i as int] == all@[i as int]@);
        let ghost before = requirement_views(out@);
        if str_equal(all[i].target.as_str(), target) {
            let one = all[i].copy();
            out.push(one);
            assert(requirement_views(out@) =~= before.push(one@));
        }
        i += 1;
    }
    out
}

fn group(all: &Vec<Requirement>) -> (r: Vec<(String, Vec<Requirement>)>)
    ensures
        grouped(r@, requirement_views(all@)),
{
    let ghost a = requirement_views(all@);
    let mut out: Vec<(String, Vec<Requirement>)> = Vec::new();
    let mut i: usize = 0;
    while i < all.len()
        invariant
            i <= all.len(),
            a == requirement_views(all@),
            ascending(names_of(out@)),
            forall|name: Seq<char>| #[trigger]
                names_of(out@).contains(name) ==> platform(name) && is_asked(a, name),
            forall|k: int|
                0 <= k < i && platform((#[trigger] a[k]).target) ==> names_of(out@).contains(
                    a[k].target,
                ),
            forall|k: int|
                0 <= k < out@.len() ==> requirement_views((#[trigger] out@[k]).1@) == asked_of(
                    a,
                    out@[k].0@,
                    a.len() as int,
                ),
        decreases all.len() - i,
    {
        let target = all[i].target.as_str();
        assert(a[i as int].target == target@);
        if is_platform_package(target) {
            let ghost names = names_of(out@);
            let ghost before = out@;
            proof {
                lemma_ascending(names, target@);
                lemma_place(names, target@);
            }
            let at: usize = find_place(&out, target);
            if !is_at(&out, at, target) {
                let one = (target.to_owned(), pick(all, target));
                out.insert(at, one);
                proof {
                    assert(names_of(out@) =~= names.insert(at as int, target@));
                    assert(names_of(out@)[at as int] == target@);
                    assert(is_asked(a, target@));
                    assert forall|name: Seq<char>| #[trigger] names_of(out@).contains(name) == (
                    names.contains(name) || name == target@) by {
                        let more = names.insert(at as int, target@);
                        if names.contains(name) {
                            let k = choose|k: int| 0 <= k < names.len() && names[k] == name;
                            assert(more[if k < at {
                                k
                            } else {
                                k + 1
                            }] == name);
                        }
                        if more.contains(name) && name != target@ {
                            let k = choose|k: int| 0 <= k < more.len() && more[k] == name;
                            assert(names[if k < at {
                                k
                            } else {
                                k - 1
                            }] == name);
                        }
                    }
                    assert forall|k: int| 0 <= k < out@.len() implies requirement_views(
                        (#[trigger] out@[k]).1@,
                    ) == asked_of(a, out@[k].0@, a.len() as int) by {
                        if k < at {
                            assert(out@[k] == before[k]);
                        } else if k > at {
                            assert(out@[k] == before[k - 1]);
                        }
                    }
                }
            }
        }
        i += 1;
    }
    out
}

/// The requirements of PHP and its extensions.
pub fn collect_requirements(
    composer: &ComposerJson,
    packages: &Vec<PackageMetadata>,
    no_dev: bool,
) -> (r: Vec<(String, Vec<Requirement>)>)
    ensures
        grouped(r@, all_asked(*composer, packages@, no_dev)),
{
    let mut all: Vec<Requirement> = Vec::new();
    assert(requirement_views(all@) =~= Seq::empty());
    add_requirements(&mut all, "__root__", "requires", &composer.require);
    if !no_dev {
        add_requirements(
            &mut all,
            "__root__",
            "requires (for development)",
            &composer.require_dev,
        );
    }
    let ghost start = requirement_views(all@);
    let mut i: usize = 0;
    assert(start + asked_by_packages(packages@, 0) =~= start);
    while i < packages.len()
        invariant
            i <= packages.len(),
            requirement_views(all@) == start + asked_by_packages(packages@, i as int),
        decreases packages.len() - i,
    {
        add_requirements(
            &mut all,
            packages[i].name.as_str(),
            "requires",
            &packages[i].require,
        );
        i += 1;
        assert(requirement_views(all@) =~= start + asked_by_packages(packages@, i as int));
    }
    assert(requirement_views(all@) =~= all_asked(*composer, packages@, no_dev));
    group(&all)
}

// ---------------------------------------------------------------------------
// What there is
// ---------------------------------------------------------------------------
/// How a candidate meets a requirement: by its own version, or by what it provides.
#[derive(Debug)]
pub enum CandidateConstraint {
    Version(String),
    Provided(String),
}

/// Something that may meet a requirement.
#[derive(Debug)]
pub struct Candidate {
    pub package_name: String,
    pub constraint: CandidateConstraint,
}

/// What a candidate is.
pub struct CandidateView {
    pub package_name: Seq<char>,
    pub provided: bool,
    pub version: Seq<char>,
}

impl View for Candidate {
    type V = CandidateView;

    open spec fn view(&self) -> CandidateView {
        CandidateView {
            package_name: self.package_name@,
            provided: self.constraint is Provided,
            version: match self.constraint {
                CandidateConstraint::Version(v) => v@,
                CandidateConstraint::Provided(v) => v@,
            },
        }
    }
}

/// Who provides what is asked for, where it is another package.
pub open spec fn provided_by(package: Seq<char>, requirement: Seq<char>) -> Option<Seq<char>> {
    if package == requirement {
        None
    } else {
        Some("provided by "@ + package)
    }
}

impl Candidate {
    /// The version that is shown.
    pub fn displayed_version(&self) -> (r: &str)
        ensures
            r@ == self@.version,
    {
        match &self.constraint {
            CandidateConstraint::Version(v) => v.as_str(),
            CandidateConstraint::Provided(v) => v.as_str(),
        }
    }

    /// Who provides what is asked for, where it is another package.
    pub fn provider(&self, requirement: &str) -> (r: Option<String>)
        ensures
            opt(r) == provided_by(self.package_name@, requirement@),
    {
        if str_equal(self.package_name.as_str(), requirement) {
            None
        } else {
            Some("provided by ".to_owned().concat(self.package_name.as_str()))
        }
    }

    fn copy(&self) -> (r: Candidate)
        ensures
            r@ == self@,
    {
        Candidate {
            package_name: self.package_name.clone(),
            constraint: match &self.constraint {
                CandidateConstraint::Version(v) => CandidateConstraint::Version(v.clone()),
                CandidateConstraint::Provided(v) => CandidateConstraint::Provided(v.clone()),
            },
        }
    }
}

/// Candidates and what each is one for.
pub open spec fn offers(v: Seq<(String, Candidate)>) -> Seq<(Seq<char>, CandidateView)> {
    v.map_values(|c: (String, Candidate)| (c.0@, c.1@))
}

/// What the platform offers.
pub open spec fn offered_by_platform(packages: Seq<Package>) -> Seq<(Seq<char>, CandidateView)> {
    packages.map_values(
        |p: Package|
            (
                p.name@,
                CandidateView {
                    package_name: p.name@,
                    provided: false,
                    version: p.shown_version(),
                },
            ),
    )
}

/// What a package offers in place of others.
pub open spec fn offered_by(name: Seq<char>, version: Seq<char>, l: Pairs) -> Seq<
    (Seq<char>, CandidateView),
> {
    l.map_values(
        |p: (Seq<char>, Seq<char>)|
            (
                lowercase(p.0),
                CandidateView {
                    package_name: name,
                    provided: true,
                    version: if p.1 == "self.version"@ {
                        "="@ + version
                    } else {
                        p.1
                    },
                },
            ),
    )
}

/// What the first `n` packages offer.
pub open spec fn offered_by_packages(packages: Seq<PackageMetadata>, n: int) -> Seq<
    (Seq<char>, CandidateView),
>
    decreases n,
{
    if n <= 0 || n > packages.len() {
        Seq::empty()
    } else {
        let p = packages[n - 1];
        offered_by_packages(packages, n - 1) + offered_by(p.name@, p.version@, links(p.provide))
            + offered_by(p.name@, p.version@, links(p.replace))
    }
}

/// Everything that is offered.
pub open spec fn all_offers(
    composer: ComposerJson,
    packages: Seq<PackageMetadata>,
    installed: Seq<Package>,
) -> Seq<(Seq<char>, CandidateView)> {
    let version = match composer.version {
        Some(v) => v@,
        None => "dev-main"@,
    };
    offered_by_platform(installed) + offered_by("__root__"@, version, links(composer.provide))
        + offered_by("__root__"@, version, links(composer.replace)) + offered_by_packages(
        packages,
        packages.len() as int,
    )
}

fn add_provider_candidates(
    out: &mut Vec<(String, Candidate)>,
    name: &str,
    version: &str,
    provided: &IndexMap<String, String>,
)
    ensures
        offers(final(out)@) == offers(old(out)@) + offered_by(name@, version@, links(*provided)),
{
    let ghost start = offers(out@);
    let ghost l = links(*provided);
    let n: usize = link_count(provided);
    let mut i: usize = 0;
    while i < n
        invariant
            i <= n,
            n == l.len(),
            l == links(*provided),
            offers(out@) =~= start + offered_by(name@, version@, l.take(i as int)),
        decreases n - i,
    {
        if let Some(e) = link_entry(provided, i) {
            let constraint = if str_equal(e.1, "self.version") {
                "=".to_owned().concat(version)
            } else {
                e.1.to_owned()
            };
            let one = (
                to_lowercase(e.0),
                Candidate {
                    package_name: name.to_owned(),
                    constraint: CandidateConstraint::Provided(constraint),
                },
            );
            let ghost before = offers(out@);
            out.push(one);
            assert(offers(out@) =~= before.push((one.0@, one.1@)));
            assert(l.take(i + 1) =~= l.take(i as int).push(l[i as int]));
        }
        i += 1;
    }
    assert(l.take(n as int) =~= l);
}

/// The candidates, each with what it is one for.
pub fn collect_candidates(
    composer: &ComposerJson,
    packages: &Vec<PackageMetadata>,
    installed: &Vec<Package>,
) -> (r: Vec<(String, Candidate)>)
    ensures
        offers(r@) == all_offers(*composer, packages@, installed@),
        forall|i: int, j: int|
            0 <= i < packages@.len() && 0 <= j < links(packages@[i].provide).len() ==> offers(
                r@,
            ).contains(
                candidate_for(
                    packages@[i].name@,
                    packages@[i].version@,
                    #[trigger] links(packages@[i].provide)[j],
                ),
            ),
        forall|i: int, j: int|
            0 <= i < packages@.len() && 0 <= j < links(packages@[i].replace).len() ==> offers(
                r@,
            ).contains(
                candidate_for(
                    packages@[i].name@,
                    packages@[i].version@,
                    #[trigger] links(packages@[i].replace)[j],
                ),
            ),
{
    let mut out: Vec<(String, Candidate)> = Vec::new();
    let mut i: usize = 0;
    while i < installed.len()
        invariant
            i <= installed.len(),
            offers(out@) =~= offered_by_platform(installed@.take(i as int)),
        decreases installed.len() - i,
    {
        let one = (
            installed[i].name.clone(),
            Candidate {
                package_name: installed[i].name.clone(),
                constraint: CandidateConstraint::Version(installed[i].pretty_version().to_owned()),
            },
        );
        let ghost before = offers(out@);
        out.push(one);
        assert(offers(out@) =~= before.push((one.0@, one.1@)));
        i += 1;
    }
    assert(installed@.take(i as int) =~= installed@);
    let version = match &composer.version {
        Some(v) => v.as_str(),
        None => "dev-main",
    };
    add_provider_candidates(&mut out, "__root__", version, &composer.provide);
    add_provider_candidates(&mut out, "__root__", version, &composer.replace);
    let ghost start = offers(out@);
    let mut j: usize = 0;
    assert(start + offered_by_packages(packages@, 0) =~= start);
    while j < packages.len()
        invariant
            j <= packages.len(),
            offers(out@) == start + offered_by_packages(packages@, j as int),
        decreases packages.len() - j,
    {
        let p = &packages[j];
        add_provider_candidates(&mut out, p.name.as_str(), p.version.as_str(), &p.provide);
        add_provider_candidates(&mut out, p.name.as_str(), p.version.as_str(), &p.replace);
        j += 1;
        assert(offers(out@) =~= start + offered_by_packages(packages@, j as int));
    }
    proof {
        assert forall|i: int, j: int|
            0 <= i < packages@.len() && 0 <= j < links(
                packages@[i].provide,
            ).len() implies offers(out@).contains(
            candidate_for(
                packages@[i].name@,
                packages@[i].version@,
                #[trigger] links(packages@[i].provide)[j],
            ),
        ) by {
            law_packages_offer_what_they_provide(*composer, packages@, installed@, i, j);
        }
        assert forall|i: int, j: int|
            0 <= i < packages@.len() && 0 <= j < links(
                packages@[i].replace,
            ).len() implies offers(out@).contains(
            candidate_for(
                packages@[i].name@,
                packages@[i].version@,
                #[trigger] links(packages@[i].replace)[j],
            ),
        ) by {
            law_packages_offer_what_they_provide(*composer, packages@, installed@, i, j);
        }
    }
    out
}

/// The candidates for a target among the first `n`.
pub open spec fn offers_for(all: Seq<(Seq<char>, CandidateView)>, target: Seq<char>, n: int) -> Seq<
    CandidateView,
>
    decreases n,
{
    if n <= 0 || n > all.len() {
        Seq::empty()
    } else {
        let t = offers_for(all, target, n - 1);
        if all[n - 1].0 == target {
            t.push(all[n - 1].1)
        } else {
            t
        }
    }
}

/// What the candidates are.
pub open spec fn candidate_views(v: Seq<Candidate>) -> Seq<CandidateView> {
    v.map_values(|c: Candidate| c@)
}

/// The candidates for a target.
pub fn candidates_for(all: &Vec<(String, Candidate)>, target: &str) -> (r: Vec<Candidate>)
    ensures
        candidate_views(r@) == offers_for(offers(all@), target@, all@.len() as int),
{
    let ghost a = offers(all@);
    let mut out: Vec<Candidate> = Vec::new();
    let mut i: usize = 0;
    assert(candidate_views(out@) =~= offers_for(a, target@, 0));
    while i < all.len()
        invariant
            i <= all.len(),
            a == offers(all@),
            candidate_views(out@) == offers_for(a, target@, i as int),
        decreases all.len() - i,
    {
        assert(a[i as int] == (all@[i as int].0@, all@[i as int].1@));
        let ghost before = candidate_views(out@);
        if str_equal(all[i].0.as_str(), target) {
            let one = all[i].1.copy();
            out.push(one);
            assert(candidate_views(out@) =~= before.push(one@));
        }
        i += 1;
    }
    out
}

// ---------------------------------------------------------------------------
// Whether the one meets the other
// ---------------------------------------------------------------------------
/// Whether a candidate meets a requirement; or why that cannot be told.
#[derive(Debug)]
pub enum Verdict {
    Met,
    Unmet,
    Invalid(String),
}

/// A target: what is asked of it, who is a candidate, and for each candidate the verdict
/// on each requirement.
#[derive(Debug)]
pub struct Target {
    pub name: String,
    pub requirements: Vec<Requirement>,
    pub candidates: Vec<Candidate>,
    pub verdicts: Vec<Vec<Verdict>>,
}

impl Target {
    /// There is a verdict for every candidate and every requirement.
    pub open spec fn wf(&self) -> bool {
        &&& self.verdicts@.len() == self.candidates@.len()
        &&& forall|c: int|
            0 <= c < self.verdicts@.len() ==> (#[trigger] self.verdicts@[c])@.len()
                == self.requirements@.len()
    }
}

/// How a target comes out.
#[derive(Debug, Clone, Copy, PartialEq, Eq, Structural)]
pub enum Status {
    Success,
    Failed,
    Missing,
}

/// How a target comes out, with what.
#[derive(Debug)]
pub struct PlatformResult {
    pub name: String,
    pub version: String,
    pub status: Status,
    pub failed_requirement: Option<Requirement>,
    pub provider: Option<String>,
}

/// What a result says.
pub struct ResultView {
    pub name: Seq<char>,
    pub version: Seq<char>,
    pub status: Status,
    pub failed_requirement: Option<RequirementView>,
    pub provider: Option<Seq<char>>,
}

/// What a requirement says, where there is one.
pub open spec fn requirement_view(r: Option<Requirement>) -> Option<RequirementView> {
    match r {
        Some(x) => Some(x@),
        None => None,
    }
}

impl View for PlatformResult {
    type V = ResultView;

    open spec fn view(&self) -> ResultView {
        ResultView {
            name: self.name@,
            version: self.version@,
            status: self.status,
            failed_requirement: requirement_view(self.failed_requirement),
            provider: opt(self.provider),
        }
    }
}

/// What the results say.
pub open spec fn result_views(v: Seq<PlatformResult>) -> Seq<ResultView> {
    v.map_values(|r: PlatformResult| r@)
}

/// The first requirement from `from` on that a candidate does not meet; their number
/// where it meets all.
pub open spec fn first_unmet(verdicts: Seq<Verdict>, from: int) -> int
    decreases verdicts.len() - from,
{
    if from < 0 || from >= verdicts.len() {
        verdicts.len() as int
    } else if verdicts[from] is Met {
        first_unmet(verdicts, from + 1)
    } else {
        from
    }
}

/// The result for a candidate that meets all requirements, or fails at one.
pub open spec fn candidate_result(t: Target, c: int, unmet: Option<RequirementView>) -> ResultView {
    ResultView {
        name: t.name@,
        version: t.candidates@[c]@.version,
        status: if unmet is None {
            Status::Success
        } else {
            Status::Failed
        },
        failed_requirement: unmet,
        provider: provided_by(t.candidates@[c]@.package_name, t.name@),
    }
}

/// The results of a target from candidate `c` on, where those before it failed: the first
/// candidate that meets all requirements is the only result; where none does, all of them
/// are failures.
pub open spec fn results_from(t: Target, c: int, failed: Seq<ResultView>) -> Result<
    Seq<ResultView>,
    Seq<char>,
>
    decreases t.candidates@.len() - c,
{
    if c < 0 || c >= t.candidates@.len() {
        Ok(failed)
    } else {
        let v = t.verdicts@[c]@;
        let l = first_unmet(v, 0);
        if l >= v.len() {
            Ok(Seq::empty().push(candidate_result(t, c, None)))
        } else {
            match v[l] {
                Verdict::Invalid(m) => Err(m@),
                _ => results_from(
                    t,
                    c + 1,
                    failed.push(candidate_result(t, c, Some(t.requirements@[l]@))),
                ),
            }
        }
    }
}

/// The results of a target.
pub open spec fn target_results(t: Target) -> Result<Seq<ResultView>, Seq<char>> {
    if t.candidates@.len() == 0 {
        Ok(
            Seq::empty().push(
                ResultView {
                    name: t.name@,
                    version: "n/a"@,
                    status: Status::Missing,
                    failed_requirement: if t.requirements@.len() > 0 {
                        Some(t.requirements@[0]@)
                    } else {
                        None
                    },
                    provider: None,
                },
            ),
        )
    } else {
        results_from(t, 0, Seq::empty())
    }
}

/// The results of the first `n` targets, or why the first of them that has none has none.
pub open spec fn results_of(targets: Seq<Target>, n: int) -> Result<Seq<ResultView>, Seq<char>>
    decreases n,
{
    if n <= 0 || n > targets.len() {
        Ok(Seq::empty())
    } else {
        match results_of(targets, n - 1) {
            Err(e) => Err(e),
            Ok(done) => match target_results(targets[n - 1]) {
                Err(e) => Err(e),
                Ok(more) => Ok(done + more),
            },
        }
    }
}

/// Some result has the status.
pub open spec fn some_result(results: Seq<ResultView>, status: Status) -> bool {
    exists|i: int| 0 <= i < results.len() && (#[trigger] results[i]).status == status
}

/// The exit code: two where something is missing, one where something else fails.
pub open spec fn code_of(results: Seq<ResultView>) -> int {
    if some_result(results, Status::Missing) {
        2
    } else if some_result(results, Status::Failed) {
        1
    } else {
        0
    }
}

proof fn lemma_some_result(a: Seq<ResultView>, b: Seq<ResultView>, status: Status)
    ensures
        some_result(a + b, status) == (some_result(a, status) || some_result(b, status)),
{
    let s = a + b;
    if some_result(a, status) {
        let i = choose|i: int| 0 <= i < a.len() && (#[trigger] a[i]).status == status;
        assert(s[i].status == status);
    }
    if some_result(b, status) {
        let i = choose|i: int| 0 <= i < b.len() && (#[trigger] b[i]).status == status;
        assert(s[a.len() + i].status == status);
    }
    if some_result(s, status) {
        let i = choose|i: int| 0 <= i < s.len() && (#[trigger] s[i]).status == status;
        if i < a.len() {
            assert(a[i].status == status);
        } else {
            assert(b[i - a.len()].status == status);
        }
    }
}

fn find_unmet(verdicts: &Vec<Verdict>) -> (r: usize)
    ensures
        r == first_unmet(verdicts@, 0),
        r <= verdicts.len(),
        r < verdicts.len() ==> !(verdicts@[r as int] is Met),
{
    let mut i: usize = 0;
    while i < verdicts.len()
        invariant
            i <= verdicts.len(),
            first_unmet(verdicts@, 0) == first_unmet(verdicts@, i as int),
        decreases verdicts.len() - i,
    {
        match &verdicts[i] {
            Verdict::Met => {},
            _ => {
                return i;
            },
        }
        i += 1;
    }
    i
}

/// The results of a target.
pub fn evaluate_target(t: &Target) -> (r: Result<Vec<PlatformResult>, String>)
    requires
        t.wf(),
    ensures
        match r {
            Ok(v) => target_results(*t) == Ok::<Seq<ResultView>, Seq<char>>(result_views(v@)),
            Err(e) => target_results(*t) == Err::<Seq<ResultView>, Seq<char>>(e@),
        },
{
    let mut out: Vec<PlatformResult> = Vec::new();
    if t.candidates.len() == 0 {
        let one = PlatformResult {
            name: t.name.clone(),
            version: "n/a".to_owned(),
            status: Status::Missing,
            failed_requirement: if t.requirements.len() > 0 {
                Some(t.requirements[0].copy())
            } else {
                None
            },
            provider: None,
        };
        out.push(one);
        assert(result_views(out@) =~= target_results(*t)->Ok_0);
        return Ok(out);
    }
    let mut c: usize = 0;
    assert(result_views(out@) =~= Seq::empty());
    while c < t.candidates.len()
        invariant
            c <= t.candidates.len(),
            t.wf(),
            results_from(*t, 0, Seq::empty()) == results_from(*t, c as int, result_views(out@)),
            t.candidates.len() > 0,
        decreases t.candidates.len() - c,
    {
        let candidate = &t.candidates[c];
        let verdicts = &t.verdicts[c];
        let l: usize = find_unmet(verdicts);
        let ghost before = result_views(out@);
        if l == verdicts.len() {
            let one = PlatformResult {
                name: t.name.clone(),
                version: candidate.displayed_version().to_owned(),
                status: Status::Success,
                failed_requirement: None,
                provider: candidate.provider(t.name.as_str()),
            };
            let mut only: Vec<PlatformResult> = Vec::new();
            only.push(one);
            assert(one@ == candidate_result(*t, c as int, None));
            assert(result_views(only@) =~= Seq::empty().push(one@));
            return Ok(only);
        }
        if let Verdict::Invalid(m) = &verdicts[l] {
            return Err(m.clone());
        }
        let one = PlatformResult {
            name: t.name.clone(),
            version: candidate.displayed_version().to_owned(),
            status: Status::Failed,
            failed_requirement: Some(t.requirements[l].copy()),
            provider: candidate.provider(t.name.as_str()),
        };
        assert(one@ == candidate_result(*t, c as int, Some(t.requirements@[l as int]@)));
        out.push(one);
        assert(result_views(out@) =~= before.push(one@));
        c += 1;
    }
    Ok(out)
}

/// The results of the targets, and the exit code.
pub fn evaluate(targets: &Vec<Target>) -> (r: Result<(Vec<PlatformResult>, i32), String>)
    requires
        forall|i: int| 0 <= i < targets@.len() ==> (#[trigger] targets@[i]).wf(),
    ensures
        match r {
            Ok(v) => {
                &&& results_of(targets@, targets@.len() as int) == Ok::<
                    Seq<ResultView>,
                    Seq<char>,
                >(result_views(v.0@))
                &&& v.1 == code_of(result_views(v.0@))
            },
            Err(e) => results_of(targets@, targets@.len() as int) == Err::<
                Seq<ResultView>,
                Seq<char>,
            >(e@),
        },
{
    let mut out: Vec<PlatformResult> = Vec::new();
    let mut code: i32 = 0;
    let mut i: usize = 0;
    assert(result_views(out@) =~= Seq::empty());
    while i < targets.len()
        invariant
            i <= targets.len(),
            forall|k: int| 0 <= k < targets@.len() ==> (#[trigger] targets@[k]).wf(),
            results_of(targets@, i as int) == Ok::<Seq<ResultView>, Seq<char>>(
                result_views(out@),
            ),
            code == code_of(result_views(out@)),
        decreases targets.len() - i,
    {
        let ghost before = result_views(out@);
        match evaluate_target(&targets[i]) {
            Err(e) => {
                proof {
                    lemma_results_stop(targets@, i + 1, targets@.len() as int);
                }
                return Err(e);
            },
            Ok(mut more) => {
                let ghost new = result_views(more@);
                proof {
                    lemma_some_result(before, new, Status::Missing);
                    lemma_some_result(before, new, Status::Failed);
                }
                let new_code: i32 = exit_code(&more);
                if new_code > code {
                    code = new_code;
                }
                out.append(&mut more);
                assert(result_views(out@) =~= before + new);
            },
        }
        i += 1;
    }
    Ok((out, code))
}

/// The exit code of the results.
pub fn exit_code(results: &Vec<PlatformResult>) -> (r: i32)
    ensures
        r == code_of(result_views(results@)),
{
    let ghost all = result_views(results@);
    let mut missing = false;
    let mut failed = false;
    let mut i: usize = 0;
    while i < results.len()
        invariant
            i <= results.len(),
            all == result_views(results@),
            missing == some_result(all.take(i as int), Status::Missing),
            failed == some_result(all.take(i as int), Status::Failed),
        decreases results.len() - i,
    {
        proof {
            let one = Seq::empty().push(all[i as int]);
            assert(one[0] == all[i as int]);
            assert(all.take(i + 1) =~= all.take(i as int) + one);
            lemma_some_result(all.take(i as int), one, Status::Missing);
            lemma_some_result(all.take(i as int), one, Status::Failed);
            assert(all[i as int].status == results@[i as int].status);
        }
        if results[i].status == Status::Missing {
            missing = true;
        }
        if results[i].status == Status::Failed {
            failed = true;
        }
        i += 1;
    }
    assert(all.take(i as int) =~= all);
    if missing {
        2
    } else if failed {
        1
    } else {
        0
    }
}

proof fn lemma_results_stop(targets: Seq<Target>, a: int, b: int)
    requires
        0 <= a <= b <= targets.len(),
        results_of(targets, a) is Err,
    ensures
        results_of(targets, b) == results_of(targets, a),
    decreases b - a,
{
    if a < b {
        lemma_results_stop(targets, a, b - 1);
    }
}

// ---------------------------------------------------------------------------
// What is said
// ---------------------------------------------------------------------------
/// The word for a status.
pub open spec fn status_word(s: Status) -> Seq<char> {
    match s {
        Status::Success => "success"@,
        Status::Failed => "failed"@,
        Status::Missing => "missing"@,
    }
}

/// The word for a status.
pub fn status_text(s: Status) -> (r: &'static str)
    ensures
        r@ == status_word(s),
{
    match s {
        Status::Success => "success",
        Status::Failed => "failed",
        Status::Missing => "missing",
    }
}

/// The width of the widest of the first `n` texts, in bytes.
pub open spec fn widest(texts: Seq<Seq<char>>, n: int) -> usize
    decreases n,
{
    if n <= 0 || n > texts.len() {
        0
    } else {
        let w = widest(texts, n - 1);
        if byte_len(texts[n - 1]) > w {
            byte_len(texts[n - 1])
        } else {
            w
        }
    }
}

/// A line of the report.
pub open spec fn result_line(r: ResultView, name_width: usize, version_width: usize) -> Seq<char> {
    let failure = match r.failed_requirement {
        Some(q) => q.source + " "@ + q.kind + " "@ + q.target + " ("@ + q.constraint + ")"@,
        None => ""@,
    };
    let line = padded(r.name, name_width as nat) + " "@ + padded(r.version, version_width as nat)
        + " "@ + padded(failure, 48) + " "@ + status_word(r.status);
    match r.provider {
        Some(p) => line + " "@ + p,
        None => line,
    }
}

/// The names of the results.
pub open spec fn result_names(v: Seq<ResultView>) -> Seq<Seq<char>> {
    v.map_values(|r: ResultView| r.name)
}

/// The versions of the results.
pub open spec fn result_versions(v: Seq<ResultView>) -> Seq<Seq<char>> {
    v.map_values(|r: ResultView| r.version)
}

/// The first `n` lines of the report.
pub open spec fn report_lines(v: Seq<ResultView>, n: int) -> Seq<char>
    decreases n,
{
    if n <= 0 || n > v.len() {
        ""@
    } else {
        report_lines(v, n - 1) + result_line(
            v[n - 1],
            widest(result_names(v), v.len() as int),
            widest(result_versions(v), v.len() as int),
        ) + "\n"@
    }
}

fn line(r: &PlatformResult, name_width: usize, version_width: usize) -> (s: String)
    ensures
        s@ == result_line(r@, name_width, version_width),
{
    let failure = match &r.failed_requirement {
        Some(q) => {
            let mut t = q.source.clone();
            t.append(" ");
            t.append(q.kind.as_str());
            t.append(" ");
            t.append(q.target.as_str());
            t.append(" (");
            t.append(q.constraint.as_str());
            t.append(")");
            t
        },
        None => "".to_owned(),
    };
    let mut out = pad(r.name.as_str(), name_width);
    out.append(" ");
    out.append(pad(r.version.as_str(), version_width).as_str());
    out.append(" ");
    out.append(pad(failure.as_str(), 48).as_str());
    out.append(" ");
    out.append(status_text(r.status));
    if let Some(p) = &r.provider {
        out.append(" ");
        out.append(p.as_str());
    }
    out
}

/// The report as text.
pub fn output_text(results: &Vec<PlatformResult>) -> (r: String)
    ensures
        r@ == report_lines(result_views(results@), results@.len() as int),
{
    let ghost all = result_views(results@);
    let ghost names = result_names(all);
    let ghost versions = result_versions(all);
    let mut name_width: usize = 0;
    let mut version_width: usize = 0;
    let mut i: usize = 0;
    while i < results.len()
        invariant
            i <= results.len(),
            all == result_views(results@),
            names == result_names(all),
            versions == result_versions(all),
            name_width == widest(names, i as int),
            version_width == widest(versions, i as int),
        decreases results.len() - i,
    {
        assert(names[i as int] == results@[i as int].name@);
        assert(versions[i as int] == results@[i as int].version@);
        let n: usize = results[i].name.as_str().len();
        let v: usize = results[i].version.as_str().len();
        if n > name_width {
            name_width = n;
        }
        if v > version_width {
            version_width = v;
        }
        i += 1;
    }
    let mut out = "".to_owned();
    let mut j: usize = 0;
    while j < results.len()
        invariant
            j <= results.len(),
            all == result_views(results@),
            name_width == widest(result_names(all), all.len() as int),
            version_width == widest(result_versions(all), all.len() as int),
            out@ == report_lines(all, j as int),
        decreases results.len() - j,
    {
        assert(all[j as int] == results@[j as int]@);
        out.append(line(&results[j], name_width, version_width).as_str());
        out.append("\n");
        j += 1;
    }
    out
}

/// A requirement in JSON.
pub open spec fn requirement_json_view(q: RequirementView) -> JsonView {
    JsonView::Object(
        Entries::empty().push(("source"@, JsonView::Text(q.source))).push(
            ("type"@, JsonView::Text(q.kind)),
        ).push(("target"@, JsonView::Text(q.target))).push(
            ("constraint"@, JsonView::Text(q.constraint)),
        ),
    )
}

/// A result in JSON.
pub open spec fn result_json_view(r: ResultView) -> JsonView {
    JsonView::Object(
        Entries::empty().push(("name"@, JsonView::Text(r.name))).push(
            ("version"@, JsonView::Text(r.version)),
        ).push(("status"@, JsonView::Text(status_word(r.status)))).push(
            (
                "failed_requirement"@,
                match r.failed_requirement {
                    Some(q) => requirement_json_view(q),
                    None => JsonView::Null,
                },
            ),
        ).push(
            (
                "provider"@,
                match r.provider {
                    Some(p) => JsonView::Text(p),
                    None => JsonView::Null,
                },
            ),
        ),
    )
}

fn requirement_json(q: &Requirement) -> (r: Json)
    ensures
        r@ == requirement_json_view(q@),
{
    let mut e: Vec<(String, Json)> = Vec::new();
    assert(entries_view(e@) =~= Entries::empty());
    add_entry(&mut e, "source", text(q.source.as_str()));
    add_entry(&mut e, "type", text(q.kind.as_str()));
    add_entry(&mut e, "target", text(q.target.as_str()));
    add_entry(&mut e, "constraint", text(q.constraint.as_str()));
    proof {
        lemma_object_view(e);
    }
    Json::Object(e)
}

fn result_json(x: &PlatformResult) -> (r: Json)
    ensures
        r@ == result_json_view(x@),
{
    let failed = match &x.failed_requirement {
        Some(q) => requirement_json(q),
        None => Json::Null,
    };
    let provider = match &x.provider {
        Some(p) => text(p.as_str()),
        None => Json::Null,
    };
    let mut e: Vec<(String, Json)> = Vec::new();
    assert(entries_view(e@) =~= Entries::empty());
    add_entry(&mut e, "name", text(x.name.as_str()));
    add_entry(&mut e, "version", text(x.version.as_str()));
    add_entry(&mut e, "status", text(status_text(x.status)));
    add_entry(&mut e, "failed_requirement", failed);
    add_entry(&mut e, "provider", provider);
    proof {
        lemma_object_view(e);
    }
    Json::Object(e)
}

/// The report in JSON.
pub fn output_json(results: &Vec<PlatformResult>) -> (r: String)
    ensures
        r@ == pretty(
            JsonView::Array(
                result_views(results@).map_values(|x: ResultView| result_json_view(x)),
            ),
        ),
{
    let ghost all = result_views(results@);
    let mut out: Vec<Json> = Vec::new();
    let mut i: usize = 0;
    while i < results.len()
        invariant
            i <= results.len(),
            all == result_views(results@),
            items_view(out@) =~= all.take(i as int).map_values(
                |x: ResultView| result_json_view(x),
            ),
        decreases results.len() - i,
    {
        assert(all[i as int] == results@[i as int]@);
        let j = result_json(&results[i]);
        proof {
            lemma_items_push(out@, j);
        }
        out.push(j);
        i += 1;
    }
    proof {
        lemma_array_view(out);
        assert(all.take(i as int) =~= all);
    }
    print_pretty(&Json::Array(out))
}

// ---------------------------------------------------------------------------
// What holds of it
// ---------------------------------------------------------------------------
/// The candidate meets every requirement.
pub open spec fn meets_all(t: Target, c: int) -> bool {
    0 <= c < t.candidates@.len() && forall|l: int|
        0 <= l < t.requirements@.len() ==> #[trigger] t.verdicts@[c]@[l] is Met
}

/// Some candidate meets every requirement of the target.
pub open spec fn is_met(t: Target) -> bool {
    exists|c: int| #[trigger] meets_all(t, c)
}

proof fn lemma_first_unmet(v: Seq<Verdict>, from: int)
    requires
        0 <= from <= v.len(),
    ensures
        from <= first_unmet(v, from) <= v.len(),
        forall|l: int| from <= l < first_unmet(v, from) ==> #[trigger] v[l] is Met,
        first_unmet(v, from) < v.len() ==> !(v[first_unmet(v, from)] is Met),
    decreases v.len() - from,
{
    if from < v.len() && v[from] is Met {
        lemma_first_unmet(v, from + 1);
    }
}

proof fn lemma_results_from(t: Target, c: int, failed: Seq<ResultView>)
    requires
        t.wf(),
        0 <= c <= t.candidates@.len(),
        results_from(t, c, failed) is Ok,
        forall|i: int| 0 <= i < failed.len() ==> (#[trigger] failed[i]).status == Status::Failed,
    ensures
        ({
            let r = results_from(t, c, failed)->Ok_0;
            &&& !some_result(r, Status::Missing)
            &&& some_result(r, Status::Success) <==> exists|k: int| c <= k && meets_all(t, k)
            &&& some_result(r, Status::Failed) <==> (failed.len() > 0 || c < t.candidates@.len())
                && !(exists|k: int| c <= k && meets_all(t, k))
        }),
    decreases t.candidates@.len() - c,
{
    let r = results_from(t, c, failed)->Ok_0;
    if c < t.candidates@.len() {
        let v = t.verdicts@[c]@;
        lemma_first_unmet(v, 0);
        let l = first_unmet(v, 0);
        if l >= v.len() {
            assert(meets_all(t, c));
            assert(r[0].status == Status::Success);
        } else {
            assert(!meets_all(t, c)) by {
                assert(!(t.verdicts@[c]@[l] is Met));
            }
            let more = failed.push(candidate_result(t, c, Some(t.requirements@[l]@)));
            lemma_results_from(t, c + 1, more);
            if exists|k: int| c <= k && meets_all(t, k) {
                let k = choose|k: int| c <= k && meets_all(t, k);
                assert(c + 1 <= k && meets_all(t, k));
            }
        }
    } else {
        if failed.len() > 0 {
            assert(r[0].status == Status::Failed);
        }
    }
}

/// The exit code is zero exactly where every target has a candidate that meets all that is
/// asked of it.
pub proof fn law_zero_means_all_is_met(targets: Seq<Target>, n: int)
    requires
        0 <= n <= targets.len(),
        forall|i: int| 0 <= i < targets.len() ==> (#[trigger] targets[i]).wf(),
        results_of(targets, n) is Ok,
    ensures
        code_of(results_of(targets, n)->Ok_0) == 0 <==> forall|i: int|
            0 <= i < n ==> is_met(#[trigger] targets[i]),
    decreases n,
{
    if n > 0 {
        law_zero_means_all_is_met(targets, n - 1);
        lemma_target_code(targets[n - 1]);
        let a = results_of(targets, n - 1)->Ok_0;
        let b = target_results(targets[n - 1])->Ok_0;
        lemma_some_result(a, b, Status::Missing);
        lemma_some_result(a, b, Status::Failed);
    }
}

/// The exit code is two exactly where some target has no candidate at all.
pub proof fn law_two_means_missing(targets: Seq<Target>, n: int)
    requires
        0 <= n <= targets.len(),
        forall|i: int| 0 <= i < targets.len() ==> (#[trigger] targets[i]).wf(),
        results_of(targets, n) is Ok,
    ensures
        code_of(results_of(targets, n)->Ok_0) == 2 <==> exists|i: int|
            0 <= i < n && (#[trigger] targets[i]).candidates@.len() == 0,
    decreases n,
{
    if n > 0 {
        law_two_means_missing(targets, n - 1);
        lemma_target_code(targets[n - 1]);
        let a = results_of(targets, n - 1)->Ok_0;
        let b = target_results(targets[n - 1])->Ok_0;
        lemma_some_result(a, b, Status::Missing);
        lemma_some_result(a, b, Status::Failed);
    }
}

proof fn lemma_target_code(t: Target)
    requires
        t.wf(),
        target_results(t) is Ok,
    ensures
        ({
            let r = target_results(t)->Ok_0;
            &&& some_result(r, Status::Missing) == (t.candidates@.len() == 0)
            &&& (!some_result(r, Status::Missing) && !some_result(r, Status::Failed))
                == is_met(t)
        }),
{
    let r = target_results(t)->Ok_0;
    if t.candidates@.len() == 0 {
        assert(r[0].status == Status::Missing);
    } else {
        lemma_results_from(t, 0, Seq::empty());
        if exists|c: int| #[trigger] meets_all(t, c) {
            let c = choose|c: int| #[trigger] meets_all(t, c);
            assert(0 <= c && meets_all(t, c));
        }
    }
}

} // verus!
