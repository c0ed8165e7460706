//! What is known of a package when its classes are made loadable.
use vstd::prelude::*;
use vstd::string::*;

use indexmap::IndexMap;

use crate::links::{links, no_links};
use crate::lock::{copy_strings, LockedPackage};
use crate::text::{str_equal, views};

verus! {

/// One directory, or several.
#[derive(Debug, Clone)]
pub enum AutoloadPath {
    Single(String),
    Multiple(Vec<String>),
}

impl View for AutoloadPath {
    type V = Seq<Seq<char>>;

    open spec fn view(&self) -> Seq<Seq<char>> {
        match self {
            AutoloadPath::Single(s) => seq![s@],
            AutoloadPath::Multiple(v) => views(v@),
        }
    }
}

impl AutoloadPath {
    /// The directories as a list.
    pub fn as_vec(&self) -> (r: Vec<String>)
        ensures
            views(r@) == self@,
    {
        match self {
            AutoloadPath::Single(s) => {
                let mut out: Vec<String> = Vec::new();
                out.push(s.clone());
                assert(views(out@) =~= self@);
                out
            },
            AutoloadPath::Multiple(v) => copy_strings(v),
        }
    }
}

impl Default for AutoloadPath {
    fn default() -> (r: AutoloadPath)
        ensures
            r@.len() == 0,
    {
        AutoloadPath::Multiple(Vec::new())
    }
}

/// The entries of a map from namespaces to directories, in order.
pub uninterp spec fn namespaces(m: IndexMap<String, AutoloadPath>) -> Seq<
    (Seq<char>, AutoloadPath),
>;

/// `IndexMap::new`: a map without entries.
#[verifier::external_body]
pub(crate) fn no_namespaces() -> (r: IndexMap<String, AutoloadPath>)
    ensures
        namespaces(r).len() == 0,
{
    IndexMap::new()
}

/// `IndexMap::len`: the number of entries.
#[verifier::external_body]
pub(crate) fn namespace_count(m: &IndexMap<String, AutoloadPath>) -> (r: usize)
    ensures
        r == namespaces(*m).len(),
{
    m.len()
}

/// `IndexMap::get_index`: the entry at a position.
#[verifier::external_body]
pub(crate) fn namespace_entry(m: &IndexMap<String, AutoloadPath>, i: usize) -> (r: Option<
    (&str, &AutoloadPath),
>)
    ensures
        r.is_some() == (i < namespaces(*m).len()),
        r matches Some(e) ==> (e.0@, *e.1) == namespaces(*m)[i as int],
{
    m.get_index(i).map(|(k, v)| (k.as_str(), v))
}

/// What a list of namespaces with their directories holds.
pub open spec fn namespace_list(v: Seq<(String, AutoloadPath)>) -> Seq<(Seq<char>, AutoloadPath)> {
    v.map_values(|e: (String, AutoloadPath)| (e.0@, e.1))
}

/// No namespace stands twice.
pub open spec fn namespaces_differ(s: Seq<(Seq<char>, AutoloadPath)>) -> bool {
    forall|i: int, j: int| 0 <= i < j < s.len() ==> #[trigger] s[i].0 != #[trigger] s[j].0
}

/// `IndexMap::from_iter`: the entries in their order, where no name stands twice.
#[verifier::external_body]
pub(crate) fn namespace_map(v: Vec<(String, AutoloadPath)>) -> (r: IndexMap<String, AutoloadPath>)
    ensures
        namespaces_differ(namespace_list(v@)) ==> namespaces(r) == namespace_list(v@),
{
    v.into_iter().collect()
}

/// How classes are found.
#[derive(Debug)]
pub struct Autoload {
    /// Directories by namespace, the namespace not repeated in the path.
    pub psr4: IndexMap<String, AutoloadPath>,
    /// Directories by namespace, the namespace repeated in the path.
    pub psr0: IndexMap<String, AutoloadPath>,
    /// Files and directories to look through for classes.
    pub classmap: Vec<String>,
    /// Files that are always loaded.
    pub files: Vec<String>,
    /// What is left out of the class map.
    pub exclude_from_classmap: Vec<String>,
}

impl Autoload {
    /// Whether there is nothing to find.
    pub fn is_empty(&self) -> (r: bool)
        ensures
            r == (namespaces(self.psr4).len() == 0 && namespaces(self.psr0).len() == 0
                && self.classmap@.len() == 0 && self.files@.len() == 0
                && self.exclude_from_classmap@.len() == 0),
    {
        namespace_count(&self.psr4) == 0 && namespace_count(&self.psr0) == 0 && self.classmap.len()
            == 0 && self.files.len() == 0 && self.exclude_from_classmap.len() == 0
    }
}

impl Default for Autoload {
    fn default() -> (r: Autoload)
        ensures
            namespaces(r.psr4).len() == 0,
            namespaces(r.psr0).len() == 0,
            r.classmap@.len() == 0,
            r.files@.len() == 0,
            r.exclude_from_classmap@.len() == 0,
    {
        Autoload {
            psr4: no_namespaces(),
            psr0: no_namespaces(),
            classmap: Vec::new(),
            files: Vec::new(),
            exclude_from_classmap: Vec::new(),
        }
    }
}

/// How the files are generated.
#[derive(Debug, Clone)]
pub struct AutoloadConfig {
    pub vendor_dir: String,
    /// The directory of the project.
    pub base_dir: String,
    /// Look every class up beforehand.
    pub optimize: bool,
    /// Keep what was found in APCu.
    pub apcu: bool,
    /// Load no class that was not looked up beforehand.
    pub authoritative: bool,
    /// What the names of the generated classes end in.
    pub suffix: Option<String>,
}

impl Default for AutoloadConfig {
    fn default() -> (r: AutoloadConfig)
        ensures
            r.vendor_dir@ == "vendor"@,
            r.base_dir@ == "."@,
            !r.optimize,
            !r.apcu,
            !r.authoritative,
            r.suffix is None,
    {
        AutoloadConfig {
            vendor_dir: "vendor".to_owned(),
            base_dir: ".".to_owned(),
            optimize: false,
            apcu: false,
            authoritative: false,
            suffix: None,
        }
    }
}

/// A package whose classes are made loadable.
#[derive(Debug)]
pub struct PackageAutoload {
    pub name: String,
    pub autoload: Autoload,
    /// Where it stands below the vendor directory.
    pub install_path: String,
    /// The packages it requires.
    pub requires: Vec<String>,
    pub pretty_version: Option<String>,
    pub version: Option<String>,
    pub reference: Option<String>,
    pub package_type: String,
    pub dev_requirement: bool,
    pub aliases: Vec<String>,
    pub replaces: IndexMap<String, String>,
    pub provides: IndexMap<String, String>,
    pub locked_package: Option<LockedPackage>,
    /// Whether it came as an archive or from its source.
    pub installation_source: Option<String>,
}

impl PackageAutoload {
    /// The package has no files.
    pub open spec fn without_files(&self) -> bool {
        self.package_type@ == "metapackage"@
    }

    /// Whether the package has no files.
    pub fn is_metapackage(&self) -> (r: bool)
        ensures
            r == self.without_files(),
    {
        str_equal(self.package_type.as_str(), "metapackage")
    }
}

impl Default for PackageAutoload {
    fn default() -> (r: PackageAutoload)
        ensures
            r.name@.len() == 0,
            namespaces(r.autoload.psr4).len() == 0,
            namespaces(r.autoload.psr0).len() == 0,
            r.autoload.classmap@.len() == 0,
            r.autoload.files@.len() == 0,
            r.autoload.exclude_from_classmap@.len() == 0,
            r.install_path@.len() == 0,
            r.requires@.len() == 0,
            r.pretty_version is None,
            r.version is None,
            r.reference is None,
            r.package_type@ == "library"@,
            !r.dev_requirement,
            r.aliases@.len() == 0,
            links(r.replaces).len() == 0,
            links(r.provides).len() == 0,
            r.locked_package is None,
            r.installation_source is None,
    {
        PackageAutoload {
            name: String::new(),
            autoload: Autoload::default(),
            install_path: String::new(),
            requires: Vec::new(),
            pretty_version: None,
            version: None,
            reference: None,
            package_type: "library".to_owned(),
            dev_requirement: false,
            aliases: Vec::new(),
            replaces: no_links(),
            provides: no_links(),
            locked_package: None,
            installation_source: None,
        }
    }
}

/// The project itself.
#[derive(Debug, Clone, Default)]
pub struct RootPackageInfo {
    pub name: String,
    pub pretty_version: String,
    pub version: String,
    pub reference: Option<String>,
    pub package_type: String,
    pub aliases: Vec<String>,
    /// Packages for development are installed.
    pub dev_mode: bool,
}

} // verus!
