//! The classes that a PHP file defines.
use vstd::prelude::*;
use vstd::string::*;

use crate::lock::opt;
use crate::paths::{extension, extension_of};
use crate::text::{
    ascii_lower, lemma_views_push, str_equal, to_ascii_lowercase, views,
};

verus! {

/// Matches the definition of a class, an interface, a trait or an enum, and captures its name.
pub const CLASS_PATTERN: &'static str =
    r"(?m)(?:^|[;{}]|<\?php)\s*(?:abstract\s+|final\s+)?(?:class|interface|trait|enum)\s+([a-zA-Z_\x80-\xff][a-zA-Z0-9_\x80-\xff]*)";

/// Matches the declaration of a namespace, and captures its name.
pub const NAMESPACE_PATTERN: &'static str =
    r"(?m)(?:^|<\?php)\s*namespace\s+([a-zA-Z_\x80-\xff][a-zA-Z0-9_\x80-\xff\\]*)\s*[;{]";

/// What the first group of a regular expression captures, match by match from the
/// left; `None` for a match that the group has no part in. Nothing where the
/// expression does not compile.
pub uninterp spec fn captures(pattern: Seq<char>, text: Seq<char>) -> Seq<Option<Seq<char>>>;

/// What a list of captures holds.
pub open spec fn capture_views(v: Seq<Option<String>>) -> Seq<Option<Seq<char>>> {
    v.map_values(|c: Option<String>| opt(c))
}

/// `regex::Regex::captures_iter`, the first group of each match; empty where the
/// expression does not compile.
#[verifier::external_body]
pub(crate) fn regex_captures(pattern: &str, text: &str) -> (r: Vec<Option<String>>)
    ensures
        capture_views(r@) == captures(pattern@, text@),
{
    match regex::Regex::new(pattern) {
        Ok(re) => re.captures_iter(text).map(|c| c.get(1).map(|m| m.as_str().to_string())).collect(),
        Err(_) => Vec::new(),
    }
}

/// A class within the namespace of its file, where the file declares one.
pub open spec fn qualified(namespace: Option<Seq<char>>, name: Seq<char>) -> Seq<char> {
    match namespace {
        Some(ns) => ns + "\\"@ + name,
        None => name,
    }
}

/// What the first match captured.
pub open spec fn first_of(found: Seq<Option<Seq<char>>>) -> Option<Seq<char>> {
    if found.len() > 0 {
        found[0]
    } else {
        None
    }
}

/// The names among the first `n` captures, within the first of the namespaces, where
/// there is one.
pub open spec fn qualified_names(
    namespaces: Seq<Option<Seq<char>>>,
    names: Seq<Option<Seq<char>>>,
    n: int,
) -> Seq<Seq<char>>
    decreases n,
{
    if n <= 0 || n > names.len() {
        Seq::empty()
    } else {
        let t = qualified_names(namespaces, names, n - 1);
        match names[n - 1] {
            Some(name) => t.push(qualified(first_of(namespaces), name)),
            None => t,
        }
    }
}

/// The names within the first of the namespaces, where there is one.
pub open spec fn all_qualified(
    namespaces: Seq<Option<Seq<char>>>,
    names: Seq<Option<Seq<char>>>,
) -> Seq<Seq<char>> {
    qualified_names(namespaces, names, names.len() as int)
}

/// The names within the first of the namespaces, where there is one.
pub fn qualify(namespaces: &Vec<Option<String>>, names: &Vec<Option<String>>) -> (r: Vec<String>)
    ensures
        views(r@) == all_qualified(capture_views(namespaces@), capture_views(names@)),
{
    let ghost ns = capture_views(namespaces@);
    let ghost all = capture_views(names@);
    assert(all.len() == names.len() && ns.len() == namespaces.len());
    let namespace: Option<&str> = if namespaces.len() > 0 {
        assert(ns[0] == opt(namespaces@[0]));
        match &namespaces[0] {
            Some(n) => Some(n.as_str()),
            None => None,
        }
    } else {
        None
    };
    let mut out: Vec<String> = Vec::new();
    let mut i: usize = 0;
    assert(views(out@) =~= qualified_names(ns, all, 0));
    while i < names.len()
        invariant
            i <= names.len(),
            all == capture_views(names@),
            all.len() == names.len(),
            first_of(ns) == match namespace {
                Some(n) => Some(n@),
                None => None,
            },
            views(out@) == qualified_names(ns, all, i as int),
        decreases names.len() - i,
    {
        assert(all[i as int] == opt(names@[i as int]));
        if let Some(name) = &names[i] {
            let one = match namespace {
                Some(n) => n.to_owned().concat("\\").concat(name.as_str()),
                None => name.clone(),
            };
            proof {
                lemma_views_push(out@, one);
            }
            out.push(one);
        }
        i += 1;
    }
    out
}

/// The classes that a PHP file defines, by their full names, from the first to the last.
pub fn extract_classes(content: &str) -> (r: Vec<String>)
    ensures
        views(r@) == all_qualified(
            captures(NAMESPACE_PATTERN@, content@),
            captures(CLASS_PATTERN@, content@),
        ),
{
    let namespaces = regex_captures(NAMESPACE_PATTERN, content);
    let names = regex_captures(CLASS_PATTERN, content);
    qualify(&namespaces, &names)
}

/// The file has the extension of PHP, in any case.
pub open spec fn php_file(path: Seq<char>) -> bool {
    extension_of(path) matches Some(e) && ascii_lower(e) == "php"@
}

/// Whether a file is a PHP file.
pub fn is_php_file(path: &str) -> (r: bool)
    ensures
        r == php_file(path@),
{
    match extension(path) {
        Some(e) => str_equal(to_ascii_lowercase(e.as_str()).as_str(), "php"),
        None => false,
    }
}

/// Whether a file is looked through for classes: it is a PHP file and no pattern
/// leaves it out.
pub fn is_scanned(path: &str, patterns: &[String]) -> (r: bool)
    ensures
        r == (php_file(path@) && !crate::autoload::code::excluded(path@, views(patterns@))),
{
    is_php_file(path) && !crate::autoload::code::is_excluded(path, patterns)
}

} // verus!
