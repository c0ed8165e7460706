//! What the packages and the project add to the loader: directories by namespace,
//! files, classes, and the directories to look through for classes.
use vstd::prelude::*;
use vstd::string::*;

use crate::autoload::code::{
    code_path, compute_file_identifier, exclude_pattern, extract_path_from_code, get_path_code,
    md5, path_code, pattern_path, wildcard_regex,
};
use crate::autoload::collect_laws::{
    declares, has_directory, in_order, law_loader_knows_what_is_declared,
    law_package_adds_what_it_declares,
};
use crate::autoload::types::{
    namespace_count, namespace_entry, namespaces, Autoload, AutoloadPath, PackageAutoload,
};
use crate::autoload::order::targets;
use crate::links::Pairs;
use crate::paths::{join_path, joined_path};
use crate::sort::{lemma_pairs_push, pairs};
use crate::sorted::{find_place, is_at, is_present, names_of, place};
use crate::text::{lemma_views_push, start_trimmed, trim_start_chars, views};

verus! {

/// Directories by namespace.
pub type Directories = Seq<(Seq<char>, Seq<Seq<char>>)>;

/// What a list of directories by namespace holds.
pub open spec fn directories(v: Seq<(String, Vec<String>)>) -> Directories {
    v.map_values(|e: (String, Vec<String>)| (e.0@, views(e.1@)))
}

/// The namespaces of a list.
pub open spec fn dir_names(d: Directories) -> Seq<Seq<char>> {
    d.map_values(|e: (Seq<char>, Seq<Seq<char>>)| e.0)
}

/// The names of a list of pairs.
pub open spec fn pair_keys(s: Pairs) -> Seq<Seq<char>> {
    s.map_values(|e: (Seq<char>, Seq<char>)| e.0)
}

/// The list with more directories for a namespace, behind those it has.
pub open spec fn with_directories(d: Directories, name: Seq<char>, more: Seq<Seq<char>>)
    -> Directories {
    let at = place(dir_names(d), name);
    if is_present(dir_names(d), name) {
        d.update(at, (name, d[at].1 + more))
    } else {
        d.insert(at, (name, more))
    }
}

/// The list with a value under a name, in place of the one it had.
pub open spec fn with_pair(s: Pairs, name: Seq<char>, value: Seq<char>) -> Pairs {
    let at = place(pair_keys(s), name);
    if is_present(pair_keys(s), name) {
        s.update(at, (name, value))
    } else {
        s.insert(at, (name, value))
    }
}

/// Adds directories for a namespace.
pub fn add_directories(v: &mut Vec<(String, Vec<String>)>, name: &str, more: Vec<String>)
    ensures
        directories(final(v)@) == with_directories(directories(old(v)@), name@, views(more@)),
{
    let ghost d = directories(v@);
    assert(dir_names(d) =~= names_of(v@));
    let at: usize = find_place(v, name);
    if is_at(v, at, name) {
        let mut joined = crate::lock::copy_strings(&v[at].1);
        let mut more = more;
        let ghost tail = more@;
        let ghost head = joined@;
        joined.append(&mut more);
        assert(views(joined@) =~= views(head) + views(tail));
        v[at] = (name.to_owned(), joined);
    } else {
        v.insert(at, (name.to_owned(), more));
    }
    assert(directories(v@) =~= with_directories(d, name@, views(more@)));
}

/// Puts a value under a name.
pub fn put_pair(v: &mut Vec<(String, String)>, name: &str, value: String)
    ensures
        pairs(final(v)@) == with_pair(pairs(old(v)@), name@, value@),
{
    let ghost s = pairs(v@);
    assert(pair_keys(s) =~= names_of(v@));
    let at: usize = find_place(v, name);
    if is_at(v, at, name) {
        v[at] = (name.to_owned(), value);
    } else {
        v.insert(at, (name.to_owned(), value));
    }
    assert(pairs(v@) =~= with_pair(s, name@, value@));
}

/// The directories of one namespace as PHP code.
pub open spec fn codes(dirs: Seq<Seq<char>>, install_path: Seq<char>, is_root: bool) -> Seq<
    Seq<char>,
> {
    dirs.map_values(|p: Seq<char>| path_code(install_path, p, is_root))
}

/// The list with the first `n` namespaces of a package.
pub open spec fn with_namespaces(
    d: Directories,
    own: Seq<(Seq<char>, AutoloadPath)>,
    n: int,
    install_path: Seq<char>,
    is_root: bool,
) -> Directories
    decreases n,
{
    if n <= 0 || n > own.len() {
        d
    } else {
        with_directories(
            with_namespaces(d, own, n - 1, install_path, is_root),
            start_trimmed(own[n - 1].0, '\\', '\\'),
            codes(own[n - 1].1@, install_path, is_root),
        )
    }
}

/// The list with the first `n` files of a package.
pub open spec fn with_files(
    s: Pairs,
    files: Seq<Seq<char>>,
    n: int,
    package: Seq<char>,
    install_path: Seq<char>,
    is_root: bool,
) -> Pairs
    decreases n,
{
    if n <= 0 || n > files.len() {
        s
    } else {
        with_files(s, files, n - 1, package, install_path, is_root).push(
            (
                md5(package + ":"@ + files[n - 1]),
                path_code(install_path, files[n - 1], is_root),
            ),
        )
    }
}

/// What the loader knows without having looked at any file.
#[derive(Debug)]
pub struct Collected {
    pub psr4: Vec<(String, Vec<String>)>,
    pub psr0: Vec<(String, Vec<String>)>,
    pub files: Vec<(String, String)>,
}

/// What the loader knows.
pub struct CollectedView {
    pub psr4: Directories,
    pub psr0: Directories,
    pub files: Pairs,
}

impl View for Collected {
    type V = CollectedView;

    open spec fn view(&self) -> CollectedView {
        CollectedView {
            psr4: directories(self.psr4@),
            psr0: directories(self.psr0@),
            files: pairs(self.files@),
        }
    }
}

/// What the loader knows once a package was added.
pub open spec fn with_autoload(
    c: CollectedView,
    autoload: Autoload,
    install_path: Seq<char>,
    package: Seq<char>,
) -> CollectedView {
    let is_root = install_path.len() == 0;
    CollectedView {
        psr4: with_namespaces(
            c.psr4,
            namespaces(autoload.psr4),
            namespaces(autoload.psr4).len() as int,
            install_path,
            is_root,
        ),
        psr0: with_namespaces(
            c.psr0,
            namespaces(autoload.psr0),
            namespaces(autoload.psr0).len() as int,
            install_path,
            is_root,
        ),
        files: with_files(
            c.files,
            views(autoload.files@),
            autoload.files@.len() as int,
            package,
            install_path,
            is_root,
        ),
    }
}

/// What the loader knows once the first `n` packages were added: packages without
/// files add nothing.
pub open spec fn with_packages(c: CollectedView, packages: Seq<PackageAutoload>, n: int)
    -> CollectedView
    decreases n,
{
    if n <= 0 || n > packages.len() {
        c
    } else {
        let before = with_packages(c, packages, n - 1);
        let p = packages[n - 1];
        if p.without_files() {
            before
        } else {
            with_autoload(before, p.autoload, p.install_path@, p.name@)
        }
    }
}

/// What the loader knows of the packages, in their order, and of the project.
pub open spec fn collected(packages: Seq<PackageAutoload>, root: Option<&Autoload>) -> CollectedView {
    let nothing = CollectedView { psr4: Seq::empty(), psr0: Seq::empty(), files: Seq::empty() };
    let c = with_packages(nothing, packages, packages.len() as int);
    match root {
        Some(a) => with_autoload(c, *a, Seq::empty(), "__root__"@),
        None => c,
    }
}

fn code_list(dirs: &Vec<String>, install_path: &str, is_root: bool) -> (r: Vec<String>)
    ensures
        views(r@) == codes(views(dirs@), install_path@, is_root),
{
    let ghost want = codes(views(dirs@), install_path@, is_root);
    let mut out: Vec<String> = Vec::new();
    let mut i: usize = 0;
    while i < dirs.len()
        invariant
            i <= dirs.len(),
            want == codes(views(dirs@), install_path@, is_root),
            views(out@) == want.take(i as int),
        decreases dirs.len() - i,
    {
        let one = get_path_code(install_path, dirs[i].as_str(), is_root);
        proof {
            lemma_views_push(out@, one);
        }
        out.push(one);
        i += 1;
        assert(views(out@) =~= want.take(i as int));
    }
    assert(views(out@) =~= want);
    out
}

fn add_namespaces(
    v: &mut Vec<(String, Vec<String>)>,
    m: &indexmap::IndexMap<String, AutoloadPath>,
    install_path: &str,
    is_root: bool,
)
    ensures
        directories(final(v)@) == with_namespaces(
            directories(old(v)@),
            namespaces(*m),
            namespaces(*m).len() as int,
            install_path@,
            is_root,
        ),
{
    let ghost d = directories(v@);
    let ghost own = namespaces(*m);
    let n: usize = namespace_count(m);
    let mut i: usize = 0;
    while i < n
        invariant
            i <= n == own.len(),
            own == namespaces(*m),
            directories(v@) == with_namespaces(d, own, i as int, install_path@, is_root),
        decreases n - i,
    {
        if let Some((namespace, paths)) = namespace_entry(m, i) {
            let name = trim_start_chars(namespace, '\\', '\\');
            let dirs = code_list(&paths.as_vec(), install_path, is_root);
            add_directories(v, name, dirs);
        }
        i += 1;
    }
}

impl Collected {
    /// Adds a package, or the project where the path is empty.
    pub fn process_autoload(&mut self, autoload: &Autoload, install_path: &str, package_name: &str)
        ensures
            final(self)@ == with_autoload(old(self)@, *autoload, install_path@, package_name@),
            in_order(old(self)@) ==> in_order(final(self)@),
            in_order(old(self)@) ==> forall|name: Seq<char>, dir: Seq<char>| #[trigger]
                has_directory(final(self)@.psr4, name, dir) <==> has_directory(
                    old(self)@.psr4,
                    name,
                    dir,
                ) || declares(namespaces(autoload.psr4), install_path@, name, dir),
            in_order(old(self)@) ==> forall|name: Seq<char>, dir: Seq<char>| #[trigger]
                has_directory(final(self)@.psr0, name, dir) <==> has_directory(
                    old(self)@.psr0,
                    name,
                    dir,
                ) || declares(namespaces(autoload.psr0), install_path@, name, dir),
    {
        let ghost before = self@;
        let is_root = install_path.is_empty();
        let ghost s = pairs(self.files@);
        add_namespaces(&mut self.psr4, &autoload.psr4, install_path, is_root);
        add_namespaces(&mut self.psr0, &autoload.psr0, install_path, is_root);
        let ghost all = views(autoload.files@);
        let mut i: usize = 0;
        while i < autoload.files.len()
            invariant
                i <= autoload.files.len(),
                all == views(autoload.files@),
                pairs(self.files@) == with_files(
                    s,
                    all,
                    i as int,
                    package_name@,
                    install_path@,
                    is_root,
                ),
                directories(self.psr4@) == with_namespaces(
                    directories(old(self).psr4@),
                    namespaces(autoload.psr4),
                    namespaces(autoload.psr4).len() as int,
                    install_path@,
                    is_root,
                ),
                directories(self.psr0@) == with_namespaces(
                    directories(old(self).psr0@),
                    namespaces(autoload.psr0),
                    namespaces(autoload.psr0).len() as int,
                    install_path@,
                    is_root,
                ),
            decreases autoload.files.len() - i,
        {
            let path = autoload.files[i].as_str();
            assert(all[i as int] == path@);
            let one = (
                compute_file_identifier(package_name, path),
                get_path_code(install_path, path, is_root),
            );
            proof {
                lemma_pairs_push(self.files@, one);
            }
            self.files.push(one);
            i += 1;
        }
        proof {
            if in_order(before) {
                let no_file = (Seq::empty(), Seq::empty());
                assert forall|name: Seq<char>, dir: Seq<char>| #[trigger]
                    has_directory(self@.psr4, name, dir) <==> has_directory(before.psr4, name, dir)
                        || declares(namespaces(autoload.psr4), install_path@, name, dir) by {
                    law_package_adds_what_it_declares(
                        before,
                        *autoload,
                        install_path@,
                        package_name@,
                        name,
                        dir,
                        no_file,
                    );
                }
                assert forall|name: Seq<char>, dir: Seq<char>| #[trigger]
                    has_directory(self@.psr0, name, dir) <==> has_directory(before.psr0, name, dir)
                        || declares(namespaces(autoload.psr0), install_path@, name, dir) by {
                    law_package_adds_what_it_declares(
                        before,
                        *autoload,
                        install_path@,
                        package_name@,
                        name,
                        dir,
                        no_file,
                    );
                }
                law_package_adds_what_it_declares(
                    before,
                    *autoload,
                    install_path@,
                    package_name@,
                    Seq::empty(),
                    Seq::empty(),
                    no_file,
                );
            }
        }
    }
}

/// What the loader knows of the packages, in their order, and of the project, which
/// comes last.
pub fn collect(packages: &[&PackageAutoload], root: Option<&Autoload>) -> (r: Collected)
    ensures
        r@ == collected(targets(packages@), root),
        forall|name: Seq<char>, dir: Seq<char>| #[trigger]
            has_directory(r@.psr4, name, dir) <==> (exists|i: int|
                0 <= i < packages@.len() && (#[trigger] packages@[i]).package_type@
                    != "metapackage"@ && declares(
                    namespaces(packages@[i].autoload.psr4),
                    packages@[i].install_path@,
                    name,
                    dir,
                )) || (root matches Some(a) && declares(
                namespaces(a.psr4),
                Seq::empty(),
                name,
                dir,
            )),
        forall|name: Seq<char>, dir: Seq<char>| #[trigger]
            has_directory(r@.psr0, name, dir) <==> (exists|i: int|
                0 <= i < packages@.len() && (#[trigger] packages@[i]).package_type@
                    != "metapackage"@ && declares(
                    namespaces(packages@[i].autoload.psr0),
                    packages@[i].install_path@,
                    name,
                    dir,
                )) || (root matches Some(a) && declares(
                namespaces(a.psr0),
                Seq::empty(),
                name,
                dir,
            )),
{
    let ghost all = targets(packages@);
    let mut out = Collected { psr4: Vec::new(), psr0: Vec::new(), files: Vec::new() };
    let ghost nothing = out@;
    proof {
        assert(nothing.psr4 =~= Seq::empty());
        assert(nothing.psr0 =~= Seq::empty());
        assert(nothing.files =~= Seq::empty());
    }
    let mut i: usize = 0;
    while i < packages.len()
        invariant
            i <= packages.len(),
            all == targets(packages@),
            out@ == with_packages(nothing, all, i as int),
        decreases packages.len() - i,
    {
        let p = packages[i];
        assert(all[i as int] == *p);
        if !p.is_metapackage() {
            out.process_autoload(&p.autoload, p.install_path.as_str(), p.name.as_str());
        }
        i += 1;
    }
    if let Some(a) = root {
        proof {
            reveal_strlit("");
            assert(""@ =~= Seq::empty());
        }
        out.process_autoload(a, "", "__root__");
    }
    proof {
        let no_file = (Seq::empty(), Seq::empty());
        assert(forall|i: int| 0 <= i < all.len() ==> #[trigger] all[i] == *packages@[i]);
        assert forall|name: Seq<char>, dir: Seq<char>| #[trigger]
            has_directory(out@.psr4, name, dir) <==> (exists|i: int|
                0 <= i < packages@.len() && (#[trigger] packages@[i]).package_type@
                    != "metapackage"@ && declares(
                    namespaces(packages@[i].autoload.psr4),
                    packages@[i].install_path@,
                    name,
                    dir,
                )) || (root matches Some(a) && declares(
                namespaces(a.psr4),
                Seq::empty(),
                name,
                dir,
            )) by {
            law_loader_knows_what_is_declared(all, root, name, dir, no_file);
            assert(forall|i: int| 0 <= i < all.len() ==> *(#[trigger] packages@[i]) == all[i]);
        }
        assert forall|name: Seq<char>, dir: Seq<char>| #[trigger]
            has_directory(out@.psr0, name, dir) <==> (exists|i: int|
                0 <= i < packages@.len() && (#[trigger] packages@[i]).package_type@
                    != "metapackage"@ && declares(
                    namespaces(packages@[i].autoload.psr0),
                    packages@[i].install_path@,
                    name,
                    dir,
                )) || (root matches Some(a) && declares(
                namespaces(a.psr0),
                Seq::empty(),
                name,
                dir,
            )) by {
            law_loader_knows_what_is_declared(all, root, name, dir, no_file);
            assert(forall|i: int| 0 <= i < all.len() ==> *(#[trigger] packages@[i]) == all[i]);
        }
    }
    out
}

// ---------------------------------------------------------------------------
// Classes
// ---------------------------------------------------------------------------
/// The class map with the first `n` classes: one found again moves to its new file.
pub open spec fn with_classes(s: Pairs, classes: Pairs, n: int) -> Pairs
    decreases n,
{
    if n <= 0 || n > classes.len() {
        s
    } else {
        with_pair(with_classes(s, classes, n - 1), classes[n - 1].0, classes[n - 1].1)
    }
}

/// The class map for classes in the order in which they were found, each with the
/// code of its file. The class that tells the installed versions is always in it.
pub fn class_map(classes: &Vec<(String, String)>) -> (r: Vec<(String, String)>)
    ensures
        pairs(r@) == with_pair(
            with_classes(Seq::empty(), pairs(classes@), classes@.len() as int),
            "Composer\\InstalledVersions"@,
            "$vendorDir . '/composer/InstalledVersions.php'"@,
        ),
{
    let ghost all = pairs(classes@);
    let mut out: Vec<(String, String)> = Vec::new();
    let mut i: usize = 0;
    assert(pairs(out@) =~= Seq::empty());
    while i < classes.len()
        invariant
            i <= classes.len(),
            all == pairs(classes@),
            pairs(out@) == with_classes(Seq::empty(), all, i as int),
        decreases classes.len() - i,
    {
        assert(all[i as int] == (classes@[i as int].0@, classes@[i as int].1@));
        put_pair(&mut out, classes[i].0.as_str(), classes[i].1.clone());
        i += 1;
    }
    put_pair(
        &mut out,
        "Composer\\InstalledVersions",
        "$vendorDir . '/composer/InstalledVersions.php'".to_owned(),
    );
    out
}

/// The directories of the first `n` entries of a class map, seen from `dir`.
pub open spec fn seen_from(dir: Seq<char>, paths: Seq<Seq<char>>) -> Seq<Seq<char>> {
    paths.map_values(|p: Seq<char>| joined_path(dir, p))
}

/// Where a package stands: below the vendor directory, or in that of the project where it has no
/// path of its own.
pub open spec fn place_of(p: PackageAutoload, vendor_dir: Seq<char>, base_dir: Seq<char>) -> Seq<
    char,
> {
    if p.install_path@.len() == 0 {
        base_dir
    } else {
        joined_path(vendor_dir, p.install_path@)
    }
}

/// What the first `n` packages want looked through.
pub open spec fn package_scans(
    packages: Seq<PackageAutoload>,
    n: int,
    vendor_dir: Seq<char>,
    base_dir: Seq<char>,
) -> Seq<Seq<char>>
    decreases n,
{
    if n <= 0 || n > packages.len() {
        Seq::empty()
    } else {
        let t = package_scans(packages, n - 1, vendor_dir, base_dir);
        let p = packages[n - 1];
        if p.without_files() {
            t
        } else {
            t + seen_from(place_of(p, vendor_dir, base_dir), views(p.autoload.classmap@))
        }
    }
}

/// The directories that pieces of code stand for, where they stand for one.
pub open spec fn code_paths(
    list: Seq<Seq<char>>,
    n: int,
    vendor_dir: Seq<char>,
    base_dir: Seq<char>,
) -> Seq<Seq<char>>
    decreases n,
{
    if n <= 0 || n > list.len() {
        Seq::empty()
    } else {
        let t = code_paths(list, n - 1, vendor_dir, base_dir);
        match code_path(list[n - 1], vendor_dir, base_dir) {
            Some(p) => t.push(p),
            None => t,
        }
    }
}

/// The directories of the first `n` namespaces.
pub open spec fn namespace_scans(
    d: Directories,
    n: int,
    vendor_dir: Seq<char>,
    base_dir: Seq<char>,
) -> Seq<Seq<char>>
    decreases n,
{
    if n <= 0 || n > d.len() {
        Seq::empty()
    } else {
        namespace_scans(d, n - 1, vendor_dir, base_dir) + code_paths(
            d[n - 1].1,
            d[n - 1].1.len() as int,
            vendor_dir,
            base_dir,
        )
    }
}

/// Everything that is looked through for classes, in order: what the packages name,
/// what the project names, and with `optimize` every directory of a namespace.
pub open spec fn scans(
    packages: Seq<PackageAutoload>,
    root: Option<&Autoload>,
    c: CollectedView,
    optimize: bool,
    vendor_dir: Seq<char>,
    base_dir: Seq<char>,
) -> Seq<Seq<char>> {
    let named = package_scans(packages, packages.len() as int, vendor_dir, base_dir) + match root {
        Some(a) => seen_from(base_dir, views(a.classmap@)),
        None => Seq::empty(),
    };
    if optimize {
        named + namespace_scans(c.psr4, c.psr4.len() as int, vendor_dir, base_dir)
            + namespace_scans(c.psr0, c.psr0.len() as int, vendor_dir, base_dir)
    } else {
        named
    }
}

fn push_seen_from(out: &mut Vec<String>, dir: &str, paths: &Vec<String>)
    ensures
        views(final(out)@) == views(old(out)@) + seen_from(dir@, views(paths@)),
{
    let ghost start = views(out@);
    let ghost want = seen_from(dir@, views(paths@));
    let mut i: usize = 0;
    assert(start + want.take(0) =~= start);
    while i < paths.len()
        invariant
            i <= paths.len(),
            want == seen_from(dir@, views(paths@)),
            views(out@) == start + want.take(i as int),
        decreases paths.len() - i,
    {
        let one = join_path(dir, paths[i].as_str());
        proof {
            lemma_views_push(out@, one);
        }
        out.push(one);
        i += 1;
        assert(views(out@) =~= start + want.take(i as int));
    }
    assert(want.take(i as int) =~= want);
}

fn push_namespaces(
    out: &mut Vec<String>,
    v: &Vec<(String, Vec<String>)>,
    vendor_dir: &str,
    base_dir: &str,
)
    ensures
        views(final(out)@) == views(old(out)@) + namespace_scans(
            directories(v@),
            v@.len() as int,
            vendor_dir@,
            base_dir@,
        ),
{
    let ghost d = directories(v@);
    let ghost start = views(out@);
    let mut i: usize = 0;
    assert(start + namespace_scans(d, 0, vendor_dir@, base_dir@) =~= start);
    while i < v.len()
        invariant
            i <= v.len(),
            d == directories(v@),
            views(out@) == start + namespace_scans(d, i as int, vendor_dir@, base_dir@),
        decreases v.len() - i,
    {
        let list = &v[i].1;
        let ghost l = views(list@);
        let ghost before = views(out@);
        assert(d[i as int].1 == l);
        let mut j: usize = 0;
        assert(before + code_paths(l, 0, vendor_dir@, base_dir@) =~= before);
        while j < list.len()
            invariant
                j <= list.len(),
                l == views(list@),
                views(out@) == before + code_paths(l, j as int, vendor_dir@, base_dir@),
            decreases list.len() - j,
        {
            assert(l[j as int] == list@[j as int]@);
            let ghost so_far = views(out@);
            if let Some(p) = extract_path_from_code(list[j].as_str(), vendor_dir, base_dir) {
                proof {
                    lemma_views_push(out@, p);
                }
                out.push(p);
            }
            j += 1;
            assert(views(out@) =~= before + code_paths(l, j as int, vendor_dir@, base_dir@));
        }
        assert(l.len() == list.len());
        i += 1;
        assert(views(out@) =~= start + namespace_scans(d, i as int, vendor_dir@, base_dir@));
    }
}

/// Everything that is looked through for classes, in order.
pub fn scan_paths(
    packages: &[&PackageAutoload],
    root: Option<&Autoload>,
    known: &Collected,
    optimize: bool,
    vendor_dir: &str,
    base_dir: &str,
) -> (r: Vec<String>)
    ensures
        views(r@) == scans(
            targets(packages@),
            root,
            known@,
            optimize,
            vendor_dir@,
            base_dir@,
        ),
{
    let ghost all = targets(packages@);
    let mut out: Vec<String> = Vec::new();
    let mut i: usize = 0;
    assert(views(out@) =~= package_scans(all, 0, vendor_dir@, base_dir@));
    while i < packages.len()
        invariant
            i <= packages.len(),
            all == targets(packages@),
            views(out@) == package_scans(all, i as int, vendor_dir@, base_dir@),
        decreases packages.len() - i,
    {
        let p = packages[i];
        assert(all[i as int] == *p);
        if !p.is_metapackage() {
            if p.install_path.as_str().is_empty() {
                push_seen_from(&mut out, base_dir, &p.autoload.classmap);
            } else {
                let dir = join_path(vendor_dir, p.install_path.as_str());
                push_seen_from(&mut out, dir.as_str(), &p.autoload.classmap);
            }
        }
        i += 1;
    }
    let ghost named = views(out@);
    if let Some(a) = root {
        push_seen_from(&mut out, base_dir, &a.classmap);
    } else {
        assert(named + Seq::empty() =~= named);
    }
    if optimize {
        push_namespaces(&mut out, &known.psr4, vendor_dir, base_dir);
        push_namespaces(&mut out, &known.psr0, vendor_dir, base_dir);
    }
    out
}

/// The expressions that leave files out, for the first `n` patterns.
pub open spec fn exclude_list(
    patterns: Seq<Seq<char>>,
    install_path: Seq<char>,
    is_root: bool,
    vendor_dir: Seq<char>,
    base_dir: Seq<char>,
) -> Seq<Seq<char>> {
    patterns.map_values(
        |p: Seq<char>|
            wildcard_regex(pattern_path(p, install_path, is_root, vendor_dir, base_dir)),
    )
}

/// The expressions of the first `n` packages.
pub open spec fn package_excludes(
    packages: Seq<PackageAutoload>,
    n: int,
    vendor_dir: Seq<char>,
    base_dir: Seq<char>,
) -> Seq<Seq<char>>
    decreases n,
{
    if n <= 0 || n > packages.len() {
        Seq::empty()
    } else {
        let p = packages[n - 1];
        package_excludes(packages, n - 1, vendor_dir, base_dir) + exclude_list(
            views(p.autoload.exclude_from_classmap@),
            p.install_path@,
            false,
            vendor_dir,
            base_dir,
        )
    }
}

fn push_excludes(
    out: &mut Vec<String>,
    patterns: &Vec<String>,
    install_path: &str,
    is_root: bool,
    vendor_dir: &str,
    base_dir: &str,
)
    ensures
        views(final(out)@) == views(old(out)@) + exclude_list(
            views(patterns@),
            install_path@,
            is_root,
            vendor_dir@,
            base_dir@,
        ),
{
    let ghost start = views(out@);
    let ghost want = exclude_list(
        views(patterns@),
        install_path@,
        is_root,
        vendor_dir@,
        base_dir@,
    );
    let mut i: usize = 0;
    assert(start + want.take(0) =~= start);
    while i < patterns.len()
        invariant
            i <= patterns.len(),
            want == exclude_list(
                views(patterns@),
                install_path@,
                is_root,
                vendor_dir@,
                base_dir@,
            ),
            views(out@) == start + want.take(i as int),
        decreases patterns.len() - i,
    {
        let one = exclude_pattern(
            patterns[i].as_str(),
            install_path,
            is_root,
            vendor_dir,
            base_dir,
        );
        proof {
            lemma_views_push(out@, one);
        }
        out.push(one);
        i += 1;
        assert(views(out@) =~= start + want.take(i as int));
    }
    assert(want.take(i as int) =~= want);
}

/// The expressions that leave files out of the class map: those of the packages,
/// then those of the project.
pub fn collect_exclude_patterns(
    packages: &[&PackageAutoload],
    root: Option<&Autoload>,
    vendor_dir: &str,
    base_dir: &str,
) -> (r: Vec<String>)
    ensures
        views(r@) == package_excludes(
            targets(packages@),
            packages@.len() as int,
            vendor_dir@,
            base_dir@,
        ) + match root {
            Some(a) => exclude_list(
                views(a.exclude_from_classmap@),
                Seq::empty(),
                true,
                vendor_dir@,
                base_dir@,
            ),
            None => Seq::empty(),
        },
{
    let ghost all = targets(packages@);
    let mut out: Vec<String> = Vec::new();
    let mut i: usize = 0;
    assert(views(out@) =~= package_excludes(all, 0, vendor_dir@, base_dir@));
    while i < packages.len()
        invariant
            i <= packages.len(),
            all == targets(packages@),
            views(out@) == package_excludes(all, i as int, vendor_dir@, base_dir@),
        decreases packages.len() - i,
    {
        let p = packages[i];
        assert(all[i as int] == *p);
        push_excludes(
            &mut out,
            &p.autoload.exclude_from_classmap,
            p.install_path.as_str(),
            false,
            vendor_dir,
            base_dir,
        );
        i += 1;
    }
    let ghost named = views(out@);
    if let Some(a) = root {
        proof {
            reveal_strlit("");
            assert(""@ =~= Seq::empty());
        }
        push_excludes(&mut out, &a.exclude_from_classmap, "", true, vendor_dir, base_dir);
    } else {
        assert(named + Seq::empty() =~= named);
    }
    out
}

} // verus!
