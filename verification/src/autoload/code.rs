//! Paths as they stand in the generated PHP code, and the patterns that leave files out.
use vstd::prelude::*;
use vstd::string::*;

use crate::paths::{below, join_path, joined_path, path_below};
use crate::text::{
    after, before, end_trimmed, halves, has_prefix, replace, replaced, split_once, start_trimmed,
    starts_with, str_equal, trim_end_char, trim_start_chars,
};

verus! {

// ---------------------------------------------------------------------------
// Outside functions
// ---------------------------------------------------------------------------
/// The MD5 digest of a text, in hexadecimal digits.
pub uninterp spec fn md5(text: Seq<char>) -> Seq<char>;

/// `md5::Md5` over the bytes of a text, printed in lower-case hexadecimal: always
/// thirty-two digits.
#[verifier::external_body]
pub(crate) fn md5_hex(text: &str) -> (r: String)
    ensures
        r@ == md5(text@),
        r@.len() == 32,
{
    format!("{:x}", <md5::Md5 as md5::Digest>::digest(text.as_bytes()))
}

/// The characters that mean something in a regular expression.
pub open spec fn meta(c: char) -> bool {
    c == '\\' || c == '.' || c == '+' || c == '*' || c == '?' || c == '(' || c == ')' || c == '|'
        || c == '[' || c == ']' || c == '{' || c == '}' || c == '^' || c == '$' || c == '#' || c
        == '&' || c == '-' || c == '~'
}

/// The text with a backslash before every character that means something in a
/// regular expression.
pub open spec fn escaped(s: Seq<char>) -> Seq<char>
    decreases s.len(),
{
    if s.len() == 0 {
        s
    } else if meta(s.last()) {
        escaped(s.drop_last()).push('\\').push(s.last())
    } else {
        escaped(s.drop_last()).push(s.last())
    }
}

/// `regex::escape` puts a backslash before every character that means something in
/// a regular expression.
#[verifier::external_body]
pub(crate) fn regex_escape(text: &str) -> (r: String)
    ensures
        r@ == escaped(text@),
{
    regex::escape(text)
}

/// Whether a regular expression matches somewhere in a text; `None` where it is none.
pub uninterp spec fn regex_match(pattern: Seq<char>, text: Seq<char>) -> Option<bool>;

/// `regex::Regex::new` and `Regex::is_match`: whether the expression matches
/// somewhere in the text, `None` where it does not compile.
#[verifier::external_body]
pub(crate) fn regex_is_match(pattern: &str, text: &str) -> (r: Option<bool>)
    ensures
        r == regex_match(pattern@, text@),
{
    regex::Regex::new(pattern).ok().map(|re| re.is_match(text))
}

// ---------------------------------------------------------------------------
// Paths in code
// ---------------------------------------------------------------------------
/// A path below the vendor directory, or below that of the project, as PHP code.
pub open spec fn path_code(install_path: Seq<char>, path: Seq<char>, is_root: bool) -> Seq<char> {
    let p = end_trimmed(path, '/');
    if is_root {
        if p.len() == 0 || p == "."@ {
            "$baseDir . '/'"@
        } else {
            "$baseDir . '/"@ + p + "'"@
        }
    } else if p.len() == 0 {
        "$vendorDir . '/"@ + install_path + "'"@
    } else {
        "$vendorDir . '/"@ + (install_path + "/"@ + p) + "'"@
    }
}

/// A path below the vendor directory, or below that of the project, as PHP code.
pub fn get_path_code(install_path: &str, path: &str, is_root: bool) -> (r: String)
    ensures
        r@ == path_code(install_path@, path@, is_root),
{
    let p = trim_end_char(path, '/');
    if is_root {
        if p.is_empty() || str_equal(p, ".") {
            "$baseDir . '/'".to_owned()
        } else {
            "$baseDir . '/".to_owned().concat(p).concat("'")
        }
    } else if p.is_empty() {
        "$vendorDir . '/".to_owned().concat(install_path).concat("'")
    } else {
        let full = install_path.to_owned().concat("/").concat(p);
        "$vendorDir . '/".to_owned().concat(full.as_str()).concat("'")
    }
}

/// The path that a piece of such code stands for.
pub open spec fn code_path(code: Seq<char>, vendor_dir: Seq<char>, base_dir: Seq<char>) -> Option<
    Seq<char>,
> {
    let root = if has_prefix(code, "$vendorDir"@) {
        Some(vendor_dir)
    } else if has_prefix(code, "$baseDir"@) {
        Some(base_dir)
    } else {
        None
    };
    match (root, halves(code, '\'')) {
        (Some(dir), Some((_, rest))) => Some(
            joined_path(dir, start_trimmed(end_trimmed(rest, '\''), '/', '\\')),
        ),
        _ => None,
    }
}

/// The path that a piece of such code stands for.
pub fn extract_path_from_code(code: &str, vendor_dir: &str, base_dir: &str) -> (r: Option<String>)
    ensures
        r.is_some() == code_path(code@, vendor_dir@, base_dir@).is_some(),
        r matches Some(p) ==> p@ == code_path(code@, vendor_dir@, base_dir@)->0,
{
    let dir = if starts_with(code, "$vendorDir") {
        vendor_dir
    } else if starts_with(code, "$baseDir") {
        base_dir
    } else {
        return None;
    };
    match split_once(code, '\'') {
        Some((_, rest)) => {
            let inner = trim_end_char(rest, '\'');
            Some(join_path(dir, trim_start_chars(inner, '/', '\\')))
        },
        None => None,
    }
}

/// The same code with the directories written relative to the file it stands in.
pub open spec fn static_path(path: Seq<char>) -> Seq<char> {
    if has_prefix(path, "$vendorDir"@) {
        replaced(path, "$vendorDir"@, "__DIR__ . '/..'"@)
    } else if has_prefix(path, "$baseDir"@) {
        replaced(path, "$baseDir"@, "__DIR__ . '/../..'"@)
    } else {
        path
    }
}

/// The same code with the directories written relative to the file it stands in.
pub fn to_static_path(path: &str) -> (r: String)
    ensures
        r@ == static_path(path@),
{
    proof {
        reveal_strlit("$vendorDir");
        reveal_strlit("$baseDir");
    }
    if starts_with(path, "$vendorDir") {
        replace(path, "$vendorDir", "__DIR__ . '/..'")
    } else if starts_with(path, "$baseDir") {
        replace(path, "$baseDir", "__DIR__ . '/../..'")
    } else {
        path.to_owned()
    }
}

/// The directories of a project, as they were given and with links resolved.
#[derive(Debug)]
pub struct Roots {
    pub vendor_dir: String,
    pub base_dir: String,
    pub real_vendor_dir: String,
    pub real_base_dir: String,
}

/// A file as PHP code: below the vendor directory or below that of the project,
/// first with links resolved, then as it was given.
pub open spec fn file_code(path: Seq<char>, resolved: Option<Seq<char>>, roots: Roots) -> Seq<char> {
    let by_real = match resolved {
        Some(p) => match below(p, roots.real_vendor_dir@) {
            Some(rel) => Some("$vendorDir . '/"@ + rel + "'"@),
            None => match below(p, roots.real_base_dir@) {
                Some(rel) => Some("$baseDir . '/"@ + rel + "'"@),
                None => None,
            },
        },
        None => None,
    };
    match by_real {
        Some(code) => code,
        None => match below(path, roots.vendor_dir@) {
            Some(rel) => "$vendorDir . '/"@ + rel + "'"@,
            None => match below(path, roots.base_dir@) {
                Some(rel) => "$baseDir . '/"@ + rel + "'"@,
                None => "$baseDir . '/"@ + path + "'"@,
            },
        },
    }
}

/// A file as PHP code; `resolved` is its path with links resolved, where that is known.
pub fn path_to_code(path: &str, resolved: &Option<String>, roots: &Roots) -> (r: String)
    ensures
        r@ == file_code(
            path@,
            match *resolved {
                Some(p) => Some(p@),
                None => None,
            },
            *roots,
        ),
{
    if let Some(p) = resolved {
        if let Some(rel) = path_below(p.as_str(), roots.real_vendor_dir.as_str()) {
            return "$vendorDir . '/".to_owned().concat(rel.as_str()).concat("'");
        }
        if let Some(rel) = path_below(p.as_str(), roots.real_base_dir.as_str()) {
            return "$baseDir . '/".to_owned().concat(rel.as_str()).concat("'");
        }
    }
    if let Some(rel) = path_below(path, roots.vendor_dir.as_str()) {
        return "$vendorDir . '/".to_owned().concat(rel.as_str()).concat("'");
    }
    if let Some(rel) = path_below(path, roots.base_dir.as_str()) {
        return "$baseDir . '/".to_owned().concat(rel.as_str()).concat("'");
    }
    "$baseDir . '/".to_owned().concat(path).concat("'")
}

/// The code for a path below the vendor directory stands for that path.
pub proof fn law_code_stands_for_its_path(
    install_path: Seq<char>,
    path: Seq<char>,
    vendor_dir: Seq<char>,
    base_dir: Seq<char>,
)
    requires
        install_path.len() > 0,
        install_path[0] != '/' && install_path[0] != '\\',
        forall|i: int| 0 <= i < install_path.len() ==> install_path[i] != '\'',
        forall|i: int| 0 <= i < path.len() ==> path[i] != '\'',
    ensures
        code_path(path_code(install_path, path, false), vendor_dir, base_dir) == Some(
            joined_path(
                vendor_dir,
                if end_trimmed(path, '/').len() == 0 {
                    install_path
                } else {
                    install_path + "/"@ + end_trimmed(path, '/')
                },
            ),
        ),
{
    let p = end_trimmed(path, '/');
    lemma_end_trimmed_keeps(path, '/', '\'');
    let full = if p.len() == 0 {
        install_path
    } else {
        install_path + "/"@ + p
    };
    reveal_strlit("/");
    assert forall|i: int| 0 <= i < full.len() implies full[i] != '\'' by {
        if i > install_path.len() {
            assert(full[i] == p[i - install_path.len() - 1]);
        }
    }
    let code = "$vendorDir . '/"@ + full + "'"@;
    lemma_vendor_code(code, full);
    let rest = "/"@ + full + "'"@;
    assert(rest.last() == '\'') by {
        reveal_strlit("'");
    }
    let inner = "/"@ + full;
    assert(rest.drop_last() =~= inner) by {
        reveal_strlit("'");
    }
    assert(end_trimmed(rest, '\'') == end_trimmed(inner, '\''));
    assert(inner.last() == full.last());
    assert(end_trimmed(inner, '\'') == inner);
    assert(after(inner, 1) =~= full);
    assert(start_trimmed(inner, '/', '\\') == start_trimmed(full, '/', '\\'));
    assert(full[0] == install_path[0]);
    assert(start_trimmed(full, '/', '\\') == full);
}

proof fn lemma_vendor_code(code: Seq<char>, full: Seq<char>)
    requires
        code == "$vendorDir . '/"@ + full + "'"@,
    ensures
        has_prefix(code, "$vendorDir"@),
        halves(code, '\'') matches Some(h) && h.1 == "/"@ + full + "'"@,
{
    reveal_strlit("$vendorDir . '/");
    reveal_strlit("$vendorDir");
    reveal_strlit("'");
    reveal_strlit("/");
    let head = "$vendorDir . '/"@;
    assert forall|i: int| 0 <= i < head.len() implies code[i] == head[i] by {}
    assert(code.subrange(0, 10) =~= "$vendorDir"@);
    crate::text::lemma_find_from_unique(code, '\'', 0, 13);
    assert(after(code, 14) =~= "/"@ + full + "'"@);
}

proof fn lemma_end_trimmed_keeps(s: Seq<char>, c: char, d: char)
    requires
        forall|i: int| 0 <= i < s.len() ==> s[i] != d,
    ensures
        forall|i: int| 0 <= i < end_trimmed(s, c).len() ==> end_trimmed(s, c)[i] != d,
    decreases s.len(),
{
    if s.len() > 0 && s.last() == c {
        lemma_end_trimmed_keeps(s.drop_last(), c, d);
        assert(end_trimmed(s, c) == end_trimmed(s.drop_last(), c));
    } else {
        assert(end_trimmed(s, c) == s);
    }
}

// ---------------------------------------------------------------------------
// Names and patterns
// ---------------------------------------------------------------------------
/// The name under which a file is loaded once: the digest of its package and path.
pub fn compute_file_identifier(package_name: &str, path: &str) -> (r: String)
    ensures
        r@ == md5(package_name@ + ":"@ + path@),
{
    let text = package_name.to_owned().concat(":").concat(path);
    md5_hex(text.as_str())
}

/// What the names of the generated classes end in: what was asked for, or half of
/// the digest of the time.
pub fn get_suffix(asked: &Option<String>, now: &str) -> (r: String)
    ensures
        r@ == match *asked {
            Some(s) => s@,
            None => before(md5(now@), 16),
        },
{
    match asked {
        Some(s) => s.clone(),
        None => {
            let digest = md5_hex(now);
            digest.as_str().substring_char(0, 16).to_owned()
        },
    }
}

/// The pattern without slashes around it, backslashes read as slashes.
pub open spec fn bare_pattern(pattern: Seq<char>) -> Seq<char> {
    end_trimmed(start_trimmed(replaced(pattern, "\\"@, "/"@), '/', '/'), '/')
}

/// The path that a pattern stands for, before its wildcards are read.
pub open spec fn pattern_path(
    pattern: Seq<char>,
    install_path: Seq<char>,
    is_root: bool,
    vendor_dir: Seq<char>,
    base_dir: Seq<char>,
) -> Seq<char> {
    if is_root {
        end_trimmed(replaced(base_dir, "\\"@, "/"@), '/') + "/"@ + bare_pattern(pattern)
    } else {
        end_trimmed(replaced(vendor_dir, "\\"@, "/"@), '/') + "/"@ + install_path + "/"@
            + bare_pattern(pattern)
    }
}

/// The regular expression for a path with wildcards: `**` stands for anything, `*`
/// for anything within one name.
pub open spec fn wildcard_regex(path: Seq<char>) -> Seq<char> {
    replaced(replaced(escaped(path), "\\*\\*"@, ".*"@), "\\*"@, "[^/]*"@)
}

/// The regular expression for a pattern that leaves files out of the class map.
pub fn exclude_pattern(
    pattern: &str,
    install_path: &str,
    is_root: bool,
    vendor_dir: &str,
    base_dir: &str,
) -> (r: String)
    ensures
        r@ == wildcard_regex(
            pattern_path(pattern@, install_path@, is_root, vendor_dir@, base_dir@),
        ),
{
    proof {
        reveal_strlit("\\");
        reveal_strlit("\\*\\*");
        reveal_strlit("\\*");
    }
    let slashed = replace(pattern, "\\", "/");
    let bare = trim_end_char(trim_start_chars(slashed.as_str(), '/', '/'), '/').to_owned();
    let full = if is_root {
        let base = replace(base_dir, "\\", "/");
        trim_end_char(base.as_str(), '/').to_owned().concat("/").concat(bare.as_str())
    } else {
        let vendor = replace(vendor_dir, "\\", "/");
        trim_end_char(vendor.as_str(), '/').to_owned().concat("/").concat(install_path).concat(
            "/",
        ).concat(bare.as_str())
    };
    let quoted = regex_escape(full.as_str());
    let any = replace(quoted.as_str(), "\\*\\*", ".*");
    replace(any.as_str(), "\\*", "[^/]*")
}

/// A pattern matches the path, backslashes read as slashes.
pub open spec fn excluded(path: Seq<char>, patterns: Seq<Seq<char>>) -> bool {
    exists|i: int|
        0 <= i < patterns.len() && regex_match(
            #[trigger] patterns[i],
            replaced(path, "\\"@, "/"@),
        ) == Some(true)
}

/// Whether a path is left out of the class map.
pub fn is_excluded(path: &str, patterns: &[String]) -> (r: bool)
    ensures
        r == excluded(path@, crate::text::views(patterns@)),
{
    proof {
        reveal_strlit("\\");
    }
    let shown = replace(path, "\\", "/");
    let ghost all = crate::text::views(patterns@);
    let mut i: usize = 0;
    while i < patterns.len()
        invariant
            i <= patterns.len(),
            all == crate::text::views(patterns@),
            shown@ == replaced(path@, "\\"@, "/"@),
            forall|k: int| 0 <= k < i ==> regex_match(#[trigger] all[k], shown@) != Some(true),
        decreases patterns.len() - i,
    {
        assert(all[i as int] == patterns@[i as int]@);
        if let Some(true) = regex_is_match(patterns[i].as_str(), shown.as_str()) {
            return true;
        }
        i += 1;
    }
    false
}

} // verus!
