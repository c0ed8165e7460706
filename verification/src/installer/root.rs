//! The project itself: its version, and the project as a package.
use vstd::prelude::*;
use vstd::string::*;

use indexmap::IndexMap;

use crate::installer::autoloads::root_name;
use crate::installer::operations::text_of;
use crate::json::{Json, JsonView};
use crate::links::{has_link, link_count, link_entry, links, no_links, set_link, Pairs};
use crate::lock::opt;
use crate::package::Package;
use crate::schema::ComposerJson;
use crate::text::str_equal;

verus! {

/// Where the version of the project comes from.
#[derive(Debug, Clone, Copy, PartialEq, Eq, Structural)]
pub enum RootSource {
    Environment,
    Manifest,
    BranchAlias,
    Branch,
}

/// The version of the project, and where it comes from.
#[derive(Debug, Clone)]
pub struct RootVersion {
    pub pretty_version: String,
    pub source: RootSource,
}

/// The version that a branch stands for.
pub open spec fn alias_of(extra: JsonView, version: Seq<char>) -> Option<Seq<char>> {
    match extra.field("branch-alias"@) {
        Some(aliases) => match aliases.field(version) {
            Some(JsonView::Text(alias)) => Some(alias),
            _ => None,
        },
        None => None,
    }
}

/// The version of the project: what the environment says, else what the manifest says, else what
/// the manifest has the branch stand for, else the branch itself.
pub open spec fn root_version_of(
    environment: Option<Seq<char>>,
    manifest: Option<Seq<char>>,
    branch: Option<Seq<char>>,
    extra: JsonView,
) -> Option<(Seq<char>, RootSource)> {
    match (environment, manifest, branch) {
        (Some(v), _, _) => Some((v, RootSource::Environment)),
        (None, Some(v), _) => Some((v, RootSource::Manifest)),
        (None, None, Some(b)) => match alias_of(extra, "dev-"@ + b) {
            Some(alias) => Some((alias, RootSource::BranchAlias)),
            None => Some(("dev-"@ + b, RootSource::Branch)),
        },
        (None, None, None) => None,
    }
}

fn branch_alias(extra: &Json, version: &str) -> (r: Option<String>)
    ensures
        r.is_some() == alias_of(extra@, version@).is_some(),
        r matches Some(a) ==> a@ == alias_of(extra@, version@)->0,
{
    match extra.get("branch-alias") {
        Some(aliases) => match aliases.get(version) {
            Some(Json::Text(alias)) => Some(alias.clone()),
            _ => None,
        },
        None => None,
    }
}

/// The version of the project, where anything tells it.
pub fn get_root_version(
    environment: Option<&str>,
    manifest: Option<&str>,
    branch: Option<&str>,
    extra: &Json,
) -> (r: Option<RootVersion>)
    ensures
        match root_version_of(text_of(environment), text_of(manifest), text_of(branch), extra@) {
            Some((version, source)) => r matches Some(v) && v.pretty_version@ == version && v.source
                == source,
            None => r is None,
        },
{
    if let Some(v) = environment {
        return Some(
            RootVersion { pretty_version: v.to_owned(), source: RootSource::Environment },
        );
    }
    if let Some(v) = manifest {
        return Some(RootVersion { pretty_version: v.to_owned(), source: RootSource::Manifest });
    }
    match branch {
        Some(b) => {
            let version = "dev-".to_owned().concat(b);
            match branch_alias(extra, version.as_str()) {
                Some(alias) => Some(
                    RootVersion { pretty_version: alias, source: RootSource::BranchAlias },
                ),
                None => Some(RootVersion { pretty_version: version, source: RootSource::Branch }),
            }
        },
        None => None,
    }
}

/// Links in which the version of the project stands for `self.version`.
pub open spec fn with_own_version(s: Pairs, version: Seq<char>) -> Pairs {
    s.map_values(
        |p: (Seq<char>, Seq<char>)|
            (
                p.0,
                if p.1 == "self.version"@ {
                    version
                } else {
                    p.1
                },
            ),
    )
}

fn links_of_root(m: &IndexMap<String, String>, version: &str) -> (r: IndexMap<String, String>)
    ensures
        links(r) == with_own_version(links(*m), version@),
{
    let ghost want = with_own_version(links(*m), version@);
    let n: usize = link_count(m);
    let mut out = no_links();
    let mut i: usize = 0;
    assert(links(out) =~= want.take(0));
    while i < n
        invariant
            i <= n,
            n == links(*m).len(),
            want == with_own_version(links(*m), version@),
            links(out) == want.take(i as int),
        decreases n - i,
    {
        if let Some((name, constraint)) = link_entry(m, i) {
            let value = if str_equal(constraint, "self.version") {
                version
            } else {
                constraint
            };
            proof {
                assert(want[i as int] == (name@, value@));
                assert forall|k: int| 0 <= k < want.take(i as int).len() implies #[trigger] want.take(
                    i as int,
                )[k].0 != name@ by {
                    assert(want[k].0 == links(*m)[k].0);
                }
                assert(!has_link(links(out), name@));
                assert(want.take(i + 1) =~= want.take(i as int).push((name@, value@)));
            }
            set_link(&mut out, name.to_owned(), value.to_owned());
        }
        i += 1;
    }
    assert(want.take(i as int) =~= want);
    out
}

/// The project as a package, with what it replaces, provides and keeps away, so that a solver
/// knows what need not be looked for.
pub fn create_root_package(manifest: &ComposerJson, pretty_version: &str, version: &str) -> (r:
    Package)
    ensures
        r.name@ == root_name(*manifest),
        r.version@ == version@,
        opt(r.pretty_version) == Some(pretty_version@),
        r.package_type@ == manifest.package_type@,
        links(r.replace) == with_own_version(links(manifest.replace), version@),
        links(r.provide) == with_own_version(links(manifest.provide), version@),
        links(r.conflict) == with_own_version(links(manifest.conflict), version@),
        links(r.require).len() == 0,
        r.description is None,
        r.bin@.len() == 0,
        r.source is None,
        r.dist is None,
        r.abandoned is None,
{
    let name = match &manifest.name {
        Some(n) => n.clone(),
        None => "__root__".to_owned(),
    };
    let mut r = Package::new(name.as_str(), version);
    r.pretty_version = Some(pretty_version.to_owned());
    r.package_type = manifest.package_type.clone();
    r.replace = links_of_root(&manifest.replace, version);
    r.provide = links_of_root(&manifest.provide, version);
    r.conflict = links_of_root(&manifest.conflict, version);
    r
}

} // verus!
