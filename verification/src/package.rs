//! A package as it is resolved and installed.
use vstd::prelude::*;
use vstd::string::*;

use indexmap::IndexMap;

use crate::json::Json;
use crate::links::{links, no_links};
use crate::names::{is_platform_package, platform};
use crate::text::{ends_with, has_prefix, has_suffix, starts_with, str_equal};

verus! {

/// Where the source of a package is kept, with further addresses to try.
#[derive(Debug)]
pub struct Source {
    pub source_type: String,
    pub url: String,
    pub reference: String,
    pub mirrors: Vec<String>,
}

/// Where the archive of a package is kept, with further addresses to try.
#[derive(Debug)]
pub struct Dist {
    pub dist_type: String,
    pub url: String,
    pub reference: Option<String>,
    pub shasum: Option<String>,
    pub sha256: Option<String>,
    pub mirrors: Vec<String>,
    pub transport_options: Option<Json>,
}

/// That a package is abandoned, or what to use instead.
#[derive(Debug, Clone)]
pub enum Abandoned {
    Bool(bool),
    Replacement(String),
}

/// A package.
#[derive(Debug)]
pub struct Package {
    pub name: String,
    /// The version in its normal form.
    pub version: String,
    /// The version as its author wrote it.
    pub pretty_version: Option<String>,
    pub package_type: String,
    pub description: Option<String>,
    pub require: IndexMap<String, String>,
    pub replace: IndexMap<String, String>,
    pub provide: IndexMap<String, String>,
    pub conflict: IndexMap<String, String>,
    pub bin: Vec<String>,
    pub source: Option<Source>,
    pub dist: Option<Dist>,
    pub abandoned: Option<Abandoned>,
}

impl Package {
    /// A package with a name and a version and nothing else.
    pub fn new(name: &str, version: &str) -> (r: Package)
        ensures
            r.name@ == name@,
            r.version@ == version@,
            r.pretty_version is None,
            r.package_type@ == "library"@,
            r.description is None,
            links(r.require).len() == 0,
            links(r.replace).len() == 0,
            links(r.provide).len() == 0,
            links(r.conflict).len() == 0,
            r.bin@.len() == 0,
            r.source is None,
            r.dist is None,
            r.abandoned is None,
    {
        Package {
            name: name.to_owned(),
            version: version.to_owned(),
            pretty_version: None,
            package_type: "library".to_owned(),
            description: None,
            require: no_links(),
            replace: no_links(),
            provide: no_links(),
            conflict: no_links(),
            bin: Vec::new(),
            source: None,
            dist: None,
            abandoned: None,
        }
    }

    /// The version as it is shown.
    pub open spec fn shown_version(&self) -> Seq<char> {
        match self.pretty_version {
            Some(v) => v@,
            None => self.version@,
        }
    }

    /// The version as it is shown.
    pub fn pretty_version(&self) -> (r: &str)
        ensures
            r@ == self.shown_version(),
    {
        match &self.pretty_version {
            Some(v) => v.as_str(),
            None => self.version.as_str(),
        }
    }

    /// The version follows a branch.
    pub open spec fn follows_branch(&self) -> bool {
        dev_version(self.version@)
    }

    /// Whether the version follows a branch.
    pub fn is_dev(&self) -> (r: bool)
        ensures
            r == self.follows_branch(),
    {
        is_dev_version(self.version.as_str())
    }

    /// Whether this is a platform package.
    pub fn is_platform_package(&self) -> (r: bool)
        ensures
            r == platform(self.name@),
    {
        is_platform_package(self.name.as_str())
    }

    /// The package stands for others and has no files.
    pub open spec fn without_files(&self) -> bool {
        self.package_type@ == "metapackage"@
    }

    /// Whether the package stands for others and has no files.
    pub fn is_metapackage(&self) -> (r: bool)
        ensures
            r == self.without_files(),
    {
        str_equal(self.package_type.as_str(), "metapackage")
    }

    /// Whether the package is abandoned.
    pub fn is_abandoned(&self) -> (r: bool)
        ensures
            r == (self.abandoned matches Some(a) && (a is Replacement || a == Abandoned::Bool(true))),
    {
        match &self.abandoned {
            Some(Abandoned::Bool(b)) => *b,
            Some(Abandoned::Replacement(_)) => true,
            None => false,
        }
    }
}

/// A version that follows a branch.
pub open spec fn dev_version(version: Seq<char>) -> bool {
    has_prefix(version, "dev-"@) || has_suffix(version, "-dev"@)
}

/// Whether a version follows a branch.
pub fn is_dev_version(version: &str) -> (r: bool)
    ensures
        r == dev_version(version@),
{
    starts_with(version, "dev-") || ends_with(version, "-dev")
}

} // verus!
