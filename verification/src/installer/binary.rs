//! Where packages and their binaries stand.
use vstd::prelude::*;
use vstd::string::*;

use crate::package::Package;
use crate::paths::{file_name, file_name_of, join_path, joined_path};
use crate::text::{strip_suffix, views, without_suffix};

verus! {

/// Links the binaries of packages into one directory.
#[derive(Debug, Clone)]
pub struct BinaryInstaller {
    bin_dir: String,
    vendor_dir: String,
}

/// The name that a binary is linked under: its file name, without `.php`.
pub open spec fn link_name_of(bin: Seq<char>) -> Seq<char> {
    let name = match file_name_of(bin) {
        Some(n) => n,
        None => bin,
    };
    match without_suffix(name, ".php"@) {
        Some(n) => n,
        None => name,
    }
}

/// The name that a binary is linked under.
pub fn link_name(bin: &str) -> (r: String)
    ensures
        r@ == link_name_of(bin@),
{
    let name = match file_name(bin) {
        Some(n) => n,
        None => bin.to_owned(),
    };
    match strip_suffix(name.as_str(), ".php") {
        Some(n) => n.to_owned(),
        None => name,
    }
}

/// Where the binaries of a package stand, and where they are linked: the first `n`.
pub open spec fn links_of(
    bins: Seq<Seq<char>>,
    n: int,
    package_dir: Seq<char>,
    bin_dir: Seq<char>,
) -> Seq<(Seq<char>, Seq<char>)>
    decreases n,
{
    if n <= 0 || n > bins.len() {
        Seq::empty()
    } else {
        links_of(bins, n - 1, package_dir, bin_dir).push(
            (joined_path(package_dir, bins[n - 1]), joined_path(bin_dir, link_name_of(bins[n - 1]))),
        )
    }
}

impl BinaryInstaller {
    /// Where binaries are linked.
    pub closed spec fn bins(&self) -> Seq<char> {
        self.bin_dir@
    }

    /// Where packages are installed.
    pub closed spec fn vendor(&self) -> Seq<char> {
        self.vendor_dir@
    }

    /// For two directories.
    pub fn new(bin_dir: &str, vendor_dir: &str) -> (r: BinaryInstaller)
        ensures
            r.bins() == bin_dir@,
            r.vendor() == vendor_dir@,
    {
        BinaryInstaller { bin_dir: bin_dir.to_owned(), vendor_dir: vendor_dir.to_owned() }
    }

    /// Where binaries are linked.
    pub fn bin_dir(&self) -> (r: &str)
        ensures
            r@ == self.bins(),
    {
        self.bin_dir.as_str()
    }

    /// Where the binaries of a package stand, and where each is linked.
    pub fn links(&self, package: &Package) -> (r: Vec<(String, String)>)
        ensures
            crate::sort::pairs(r@) == links_of(
                views(package.bin@),
                package.bin@.len() as int,
                joined_path(self.vendor(), package.name@),
                self.bins(),
            ),
    {
        let package_dir = join_path(self.vendor_dir.as_str(), package.name.as_str());
        let ghost all = views(package.bin@);
        let mut out: Vec<(String, String)> = Vec::new();
        let mut i: usize = 0;
        assert(crate::sort::pairs(out@) =~= links_of(all, 0, package_dir@, self.bin_dir@));
        while i < package.bin.len()
            invariant
                i <= package.bin.len(),
                all == views(package.bin@),
                crate::sort::pairs(out@) == links_of(
                    all,
                    i as int,
                    package_dir@,
                    self.bin_dir@,
                ),
            decreases package.bin.len() - i,
        {
            assert(all[i as int] == package.bin@[i as int]@);
            let one = (
                join_path(package_dir.as_str(), package.bin[i].as_str()),
                join_path(self.bin_dir.as_str(), link_name(package.bin[i].as_str()).as_str()),
            );
            proof {
                crate::sort::lemma_pairs_push(out@, one);
            }
            out.push(one);
            i += 1;
        }
        out
    }
}

/// Installs the files of packages.
#[derive(Debug, Clone)]
pub struct LibraryInstaller {
    vendor_dir: String,
}

impl LibraryInstaller {
    /// Where packages are installed.
    pub closed spec fn vendor(&self) -> Seq<char> {
        self.vendor_dir@
    }

    /// For a directory.
    pub fn new(vendor_dir: &str) -> (r: LibraryInstaller)
        ensures
            r.vendor() == vendor_dir@,
    {
        LibraryInstaller { vendor_dir: vendor_dir.to_owned() }
    }

    /// Where a package is installed.
    pub fn get_install_path(&self, package: &Package) -> (r: String)
        ensures
            r@ == joined_path(self.vendor(), package.name@),
    {
        join_path(self.vendor_dir.as_str(), package.name.as_str())
    }

    /// Where packages are installed.
    pub fn vendor_dir(&self) -> (r: &str)
        ensures
            r@ == self.vendor(),
    {
        self.vendor_dir.as_str()
    }
}

} // verus!
