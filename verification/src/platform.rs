//! Which PHP is asked for its version and extensions, and when what it said is still good.
use vstd::prelude::*;
use vstd::string::*;

use crate::error::{refuse, Refusal};
use crate::lock::opt;
use crate::paths::{
    absolute, components, is_absolute, join_path, joined_path, path_components, same_names,
    same_path,
};
use crate::sort::{by_name, lemma_pairs_push, pairs, sort_by_name};
use crate::links::Pairs;
use crate::text::{
    has_prefix, lemma_views_push, starts_with, str_equal, str_views, views,
};

verus! {

/// The first of three texts that is there, else `php`.
pub open spec fn first_php(
    cli: Option<Seq<char>>,
    sonata: Option<Seq<char>>,
    php: Option<Seq<char>>,
) -> Seq<char> {
    if cli is Some {
        cli->0
    } else if sonata is Some {
        sonata->0
    } else if php is Some {
        php->0
    } else {
        "php"@
    }
}

/// The PHP that is used: that of the command line, else that of `COMPOSER_RS_PHP`, else that
/// of `PHP_BINARY`, else the one that the system finds.
pub fn select_php_binary(
    cli: Option<String>,
    composer_rs_php: Option<String>,
    php_binary: Option<String>,
) -> (r: String)
    ensures
        r@ == first_php(opt(cli), opt(composer_rs_php), opt(php_binary)),
{
    if let Some(p) = cli {
        return p;
    }
    if let Some(p) = composer_rs_php {
        return p;
    }
    match php_binary {
        Some(p) => p,
        None => "php".to_owned(),
    }
}

/// PHP is new enough from 7.2.5 on, counted as PHP counts.
pub fn check_php_version(binary: &str, version_id: u64, version: &str) -> (r: Result<(), Refusal>)
    ensures
        r is Ok <==> version_id >= 70205,
        r matches Err(e) ==> e@ == "sonata requires PHP >= 7.2.5; "@ + binary@ + " reports "@
            + version@,
{
    if version_id < 70205 {
        let m = "sonata requires PHP >= 7.2.5; ".to_owned().concat(binary).concat(
            " reports ",
        ).concat(version);
        return refuse(m.as_str());
    }
    Ok(())
}

/// The number of a version of PHP, as PHP counts.
pub open spec fn php_id(major: int, minor: int, patch: int) -> int {
    major * 10000 + minor * 100 + patch
}

/// The versions that are new enough are those from 7.2.5 on.
pub proof fn law_least_php_version(major: int, minor: int, patch: int)
    requires
        0 <= major,
        0 <= minor < 100,
        0 <= patch < 100,
    ensures
        php_id(major, minor, patch) >= 70205 <==> major > 7 || (major == 7 && (minor > 2 || (minor
            == 2 && patch >= 5))),
{
}

// ---------------------------------------------------------------------------
// Where what PHP said is kept
// ---------------------------------------------------------------------------
/// The text, unless it is empty.
pub open spec fn unless_empty(v: Option<Seq<char>>) -> Option<Seq<char>> {
    match v {
        Some(s) => if s.len() > 0 {
            Some(s)
        } else {
            None
        },
        None => None,
    }
}

/// Where what PHP said is kept: nowhere where that was switched off.
pub open spec fn platform_cache(
    switched_off: Option<Seq<char>>,
    xdg_cache: Option<Seq<char>>,
    home: Option<Seq<char>>,
) -> Option<Seq<char>> {
    if switched_off matches Some(v) && v != "0"@ {
        None
    } else if unless_empty(xdg_cache) is Some {
        Some(joined_path(xdg_cache->0, "sonata/platform"@))
    } else if unless_empty(home) is Some {
        Some(joined_path(joined_path(home->0, ".cache"@), "sonata/platform"@))
    } else {
        None
    }
}

/// What an optional text holds.
pub open spec fn held(v: Option<&str>) -> Option<Seq<char>> {
    match v {
        Some(s) => Some(s@),
        None => None,
    }
}

/// Where what PHP said is kept, given three variables of the environment.
pub fn platform_cache_dir(
    no_platform_cache: Option<&str>,
    xdg_cache_home: Option<&str>,
    home: Option<&str>,
) -> (r: Option<String>)
    ensures
        opt(r) == platform_cache(held(no_platform_cache), held(xdg_cache_home), held(home)),
{
    if let Some(v) = no_platform_cache {
        if !str_equal(v, "0") {
            return None;
        }
    }
    if let Some(d) = xdg_cache_home {
        if !d.is_empty() {
            return Some(join_path(d, "sonata/platform"));
        }
    }
    if let Some(h) = home {
        if !h.is_empty() {
            return Some(join_path(join_path(h, ".cache").as_str(), "sonata/platform"));
        }
    }
    None
}

/// The digit for a number below sixteen.
pub open spec fn hex_digit(n: int) -> char {
    if n < 10 {
        (n + 48) as char
    } else {
        (n + 87) as char
    }
}

/// The last `n` hexadecimal digits of a number.
pub open spec fn hex(value: nat, n: nat) -> Seq<char>
    decreases n,
{
    if n == 0 {
        ""@
    } else {
        hex(value / 16, (n - 1) as nat).push(hex_digit(value as int % 16))
    }
}

fn digit_of(n: u64) -> (r: char)
    requires
        n < 16,
    ensures
        r == hex_digit(n as int),
{
    if n < 10 {
        (n as u8 + 48) as char
    } else {
        (n as u8 + 87) as char
    }
}

fn hex_text(value: u64, n: u8) -> (r: String)
    ensures
        r@ == hex(value as nat, n as nat),
    decreases n,
{
    if n == 0 {
        return "".to_owned();
    }
    let mut out = hex_text(value / 16, n - 1);
    out.push(digit_of(value % 16));
    out
}

/// The file that holds what PHP said, by the digest of what it depends on.
pub fn cache_path(directory: &str, digest: u64) -> (r: String)
    ensures
        r@ == joined_path(directory@, "v1-"@ + hex(digest as nat, 16) + ".json"@),
{
    let name = "v1-".to_owned().concat(hex_text(digest, 16).as_str()).concat(".json");
    join_path(directory, name.as_str())
}

// ---------------------------------------------------------------------------
// What it depends on
// ---------------------------------------------------------------------------
/// What is known of a file.
#[derive(Debug, Clone, Copy, PartialEq, Eq, Structural)]
pub struct MetadataState {
    pub len: u64,
    pub modified_ns: u64,
    pub is_dir: bool,
}

/// A file: the path that was asked for, where it leads, and what is known of it.
#[derive(Debug)]
pub struct FileState {
    pub requested: String,
    pub resolved: String,
    pub metadata: Option<MetadataState>,
}

/// What PHP says depends on: the program, the directory, and the environment.
#[derive(Debug)]
pub struct ProbeIdentity {
    pub php: FileState,
    pub current_dir: String,
    pub environment: Vec<(String, String)>,
}

/// The files are the same.
pub open spec fn same_state(a: FileState, b: FileState) -> bool {
    same_names(a.requested@, b.requested@) && same_names(a.resolved@, b.resolved@) && a.metadata
        == b.metadata
}

/// What PHP says depends on the same.
pub open spec fn same_identity(a: ProbeIdentity, b: ProbeIdentity) -> bool {
    same_state(a.php, b.php) && same_names(a.current_dir@, b.current_dir@) && pairs(a.environment@)
        == pairs(b.environment@)
}

fn states_equal(a: &FileState, b: &FileState) -> (r: bool)
    ensures
        r == same_state(*a, *b),
{
    let known = match (&a.metadata, &b.metadata) {
        (Some(x), Some(y)) => *x == *y,
        (None, None) => true,
        _ => false,
    };
    known && same_path(a.requested.as_str(), b.requested.as_str()) && same_path(
        a.resolved.as_str(),
        b.resolved.as_str(),
    )
}

fn pairs_equal(a: &Vec<(String, String)>, b: &Vec<(String, String)>) -> (r: bool)
    ensures
        r == (pairs(a@) == pairs(b@)),
{
    let ghost x = pairs(a@);
    let ghost y = pairs(b@);
    assert(x.len() == a.len() && y.len() == b.len());
    if a.len() != b.len() {
        return false;
    }
    let mut i: usize = 0;
    while i < a.len()
        invariant
            i <= a.len(),
            a.len() == b.len(),
            x == pairs(a@),
            y == pairs(b@),
            forall|k: int| 0 <= k < i ==> x[k] == y[k],
        decreases a.len() - i,
    {
        assert(x[i as int] == (a@[i as int].0@, a@[i as int].1@));
        assert(y[i as int] == (b@[i as int].0@, b@[i as int].1@));
        if !str_equal(a[i].0.as_str(), b[i].0.as_str()) || !str_equal(
            a[i].1.as_str(),
            b[i].1.as_str(),
        ) {
            return false;
        }
        i += 1;
    }
    assert(x =~= y);
    true
}

/// What was kept is still good: it was written in the same way, depends on the same, and no
/// file that it names has changed.
pub open spec fn still_good(
    version: u8,
    kept: ProbeIdentity,
    now: ProbeIdentity,
    watched: Seq<FileState>,
    watched_now: Seq<FileState>,
) -> bool {
    version == 1 && same_identity(kept, now) && watched.len() == watched_now.len() && forall|i: int|
        0 <= i < watched.len() ==> same_state(#[trigger] watched_now[i], watched[i])
}

/// Whether what was kept is still good. `watched_now` holds the files that it names, as they
/// are now.
pub fn is_still_good(
    version: u8,
    kept: &ProbeIdentity,
    now: &ProbeIdentity,
    watched: &Vec<FileState>,
    watched_now: &Vec<FileState>,
) -> (r: bool)
    ensures
        r == still_good(version, *kept, *now, watched@, watched_now@),
{
    if version != 1 || !states_equal(&kept.php, &now.php) || !same_path(
        kept.current_dir.as_str(),
        now.current_dir.as_str(),
    ) || !pairs_equal(&kept.environment, &now.environment) || watched.len() != watched_now.len() {
        return false;
    }
    let mut i: usize = 0;
    while i < watched.len()
        invariant
            i <= watched.len(),
            watched.len() == watched_now.len(),
            forall|k: int| 0 <= k < i ==> same_state(#[trigger] watched_now@[k], watched@[k]),
        decreases watched.len() - i,
    {
        if !states_equal(&watched_now[i], &watched[i]) {
            assert(!same_state(watched_now@[i as int], watched@[i as int]));
            return false;
        }
        i += 1;
    }
    true
}

/// The variable of the environment bears on what PHP says.
pub open spec fn bears_on_php(name: Seq<char>) -> bool {
    name == "PATH"@ || has_prefix(name, "PHP"@) || has_prefix(name, "COMPOSER_RS_PHP"@) || name
        == "LD_LIBRARY_PATH"@ || name == "LD_PRELOAD"@ || has_prefix(name, "DYLD_"@)
}

/// The variables among the first `n` that bear on what PHP says.
pub open spec fn bearing(s: Pairs, n: int) -> Pairs
    decreases n,
{
    if n <= 0 || n > s.len() {
        Seq::empty()
    } else {
        let t = bearing(s, n - 1);
        if bears_on_php(s[n - 1].0) {
            t.push(s[n - 1])
        } else {
            t
        }
    }
}

/// The sides of each pair exchanged.
pub open spec fn exchanged(s: Pairs) -> Pairs {
    s.map_values(|p: (Seq<char>, Seq<char>)| (p.1, p.0))
}

/// The pairs by name; those of the same name by value.
pub open spec fn by_name_and_value(s: Pairs) -> Pairs {
    by_name(exchanged(by_name(exchanged(s))))
}

fn exchange(v: Vec<(String, String)>) -> (r: Vec<(String, String)>)
    ensures
        pairs(r@) == exchanged(pairs(v@)),
{
    let ghost s = pairs(v@);
    let mut out: Vec<(String, String)> = Vec::new();
    let mut i: usize = 0;
    assert(pairs(out@) =~= exchanged(s.take(0)));
    while i < v.len()
        invariant
            i <= v.len(),
            s == pairs(v@),
            pairs(out@) == exchanged(s.take(i as int)),
        decreases v.len() - i,
    {
        let one = (v[i].1.clone(), v[i].0.clone());
        proof {
            lemma_pairs_push(out@, one);
            assert(s[i as int] == (v@[i as int].0@, v@[i as int].1@));
            assert(exchanged(s.take(i + 1)) =~= exchanged(s.take(i as int)).push(
                (one.0@, one.1@),
            ));
        }
        out.push(one);
        i += 1;
    }
    assert(s.take(i as int) =~= s);
    out
}

/// The variables of the environment that bear on what PHP says, in order.
pub fn probe_environment(all: &Vec<(String, String)>) -> (r: Vec<(String, String)>)
    ensures
        pairs(r@) == by_name_and_value(bearing(pairs(all@), all@.len() as int)),
{
    let ghost s = pairs(all@);
    assert(s.len() == all.len());
    let mut out: Vec<(String, String)> = Vec::new();
    let mut i: usize = 0;
    assert(pairs(out@) =~= bearing(s, 0));
    while i < all.len()
        invariant
            i <= all.len(),
            s == pairs(all@),
            s.len() == all.len(),
            pairs(out@) == bearing(s, i as int),
        decreases all.len() - i,
    {
        let name = all[i].0.as_str();
        assert(s[i as int] == (all@[i as int].0@, all@[i as int].1@));
        if str_equal(name, "PATH") || starts_with(name, "PHP") || starts_with(
            name,
            "COMPOSER_RS_PHP",
        ) || str_equal(name, "LD_LIBRARY_PATH") || str_equal(name, "LD_PRELOAD") || starts_with(
            name,
            "DYLD_",
        ) {
            let one = (all[i].0.clone(), all[i].1.clone());
            proof {
                lemma_pairs_push(out@, one);
            }
            out.push(one);
        }
        i += 1;
    }
    sort_by_name(exchange(sort_by_name(exchange(out))))
}

/// Where a program may be: at its own path, where that is more than a name, else in each of
/// the directories in turn.
pub open spec fn places(binary: Seq<char>, directories: Seq<Seq<char>>) -> Seq<Seq<char>> {
    if absolute(binary) || components(binary).len() > 1 {
        seq![binary]
    } else {
        directories.map_values(|d: Seq<char>| joined_path(d, binary))
    }
}

/// Where a program may be.
pub fn executable_places(binary: &str, directories: &Vec<String>) -> (r: Vec<String>)
    ensures
        views(r@) == places(binary@, views(directories@)),
{
    let parts = path_components(binary);
    assert(str_views(parts@).len() == parts.len());
    if is_absolute(binary) || parts.len() > 1 {
        let r = vec![binary.to_owned()];
        assert(views(r@) =~= seq![binary@]);
        return r;
    }
    let ghost all = views(directories@);
    let mut out: Vec<String> = Vec::new();
    let mut i: usize = 0;
    while i < directories.len()
        invariant
            i <= directories.len(),
            all == views(directories@),
            views(out@) =~= all.take(i as int).map_values(
                |d: Seq<char>| joined_path(d, binary@),
            ),
        decreases directories.len() - i,
    {
        let one = join_path(directories[i].as_str(), binary);
        proof {
            lemma_views_push(out@, one);
            assert(all[i as int] == directories@[i as int]@);
        }
        out.push(one);
        i += 1;
    }
    assert(all.take(i as int) =~= all);
    out
}

/// What is said where PHP fails.
pub fn probe_failed(binary: &str, status: &str, stderr: &str) -> (r: String)
    ensures
        r@ == "PHP platform probe failed using "@ + binary@ + " (exit "@ + status@ + "): "@
            + crate::text::trimmed(stderr@),
{
    "PHP platform probe failed using ".to_owned().concat(binary).concat(" (exit ").concat(
        status,
    ).concat("): ").concat(crate::text::trim(stderr))
}

} // verus!
