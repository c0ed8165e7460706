//! Paths as Unix writes them: components between slashes.
use vstd::prelude::*;
use vstd::string::*;

use crate::text::{chars_of, pieces, split, str_equal, str_views, string_of};

verus! {

/// The path starts at the root.
pub open spec fn absolute(path: Seq<char>) -> bool {
    path.len() > 0 && path[0] == '/'
}

/// `path` seen from `base`: an absolute path stays as it is, any other is appended
/// behind a slash, which is not doubled.
pub open spec fn joined_path(base: Seq<char>, path: Seq<char>) -> Seq<char> {
    if absolute(path) {
        path
    } else if base.len() > 0 && base.last() != '/' {
        base.push('/') + path
    } else {
        base + path
    }
}

/// Whether the path starts at the root.
pub fn is_absolute(path: &str) -> (r: bool)
    ensures
        r == absolute(path@),
{
    !path.is_empty() && path.get_char(0) == '/'
}

/// `path` seen from `base`.
pub fn join_path(base: &str, path: &str) -> (r: String)
    ensures
        r@ == joined_path(base@, path@),
{
    if is_absolute(path) {
        return path.to_owned();
    }
    let n: usize = base.unicode_len();
    let mut out = base.to_owned();
    if n > 0 && base.get_char(n - 1) != '/' {
        out.push('/');
    }
    out.append(path);
    out
}

/// The names on the way: what stands between the slashes, without empty names and
/// without single dots; a dot that starts the path counts.
pub open spec fn components(path: Seq<char>) -> Seq<Seq<char>> {
    kept_components(pieces(path, '/'), pieces(path, '/').len() as int)
}

/// The names among the first `n` pieces.
pub open spec fn kept_components(parts: Seq<Seq<char>>, n: int) -> Seq<Seq<char>>
    decreases n,
{
    if n <= 0 || n > parts.len() {
        Seq::empty()
    } else {
        let so_far = kept_components(parts, n - 1);
        let part = parts[n - 1];
        if part.len() == 0 || (part == "."@ && n > 1) {
            so_far
        } else {
            so_far.push(part)
        }
    }
}

/// The names on the way.
pub fn path_components<'a>(path: &'a str) -> (r: Vec<&'a str>)
    ensures
        str_views(r@) == components(path@),
{
    let parts = split(path, '/');
    let ghost all = str_views(parts@);
    let mut out: Vec<&'a str> = Vec::new();
    let mut i: usize = 0;
    assert(str_views(out@) =~= kept_components(all, 0));
    while i < parts.len()
        invariant
            i <= parts.len(),
            all == str_views(parts@),
            str_views(out@) == kept_components(all, i as int),
        decreases parts.len() - i,
    {
        let part = parts[i];
        assert(all[i as int] == part@);
        if !part.is_empty() && !(str_equal(part, ".") && i > 0) {
            proof {
                crate::text::lemma_str_views_push(out@, part);
            }
            out.push(part);
        }
        i += 1;
    }
    assert(all.len() == parts.len());
    out
}

/// The path without slashes and single dots behind its last name.
pub open spec fn bare(s: Seq<char>) -> Seq<char>
    decreases s.len(),
{
    if s.len() > 1 && (s.last() == '/' || (s.last() == '.' && s[s.len() - 2] == '/')) {
        bare(s.drop_last())
    } else {
        s
    }
}

/// The position behind the last slash, or 0.
pub open spec fn name_start(s: Seq<char>) -> int
    decreases s.len(),
{
    if s.len() == 0 {
        0
    } else if s.last() == '/' {
        s.len() as int
    } else {
        name_start(s.drop_last())
    }
}

/// The directory that a path stands in; the root and the empty path stand in none.
pub open spec fn parent_of(path: Seq<char>) -> Option<Seq<char>> {
    let t = bare(path);
    if t.len() == 0 || t == seq!['/'] {
        None
    } else {
        Some(bare(t.subrange(0, name_start(t))))
    }
}

/// The last name of a path, where it has one.
pub open spec fn file_name_of(path: Seq<char>) -> Option<Seq<char>> {
    let t = bare(path);
    let name = t.subrange(name_start(t), t.len() as int);
    if name.len() == 0 || name == "."@ || name == ".."@ {
        None
    } else {
        Some(name)
    }
}

/// The length of the path without what stands behind its last name.
fn bare_length(v: &[char]) -> (r: usize)
    ensures
        r <= v.len(),
        bare(v@) == v@.take(r as int),
{
    let mut n: usize = v.len();
    assert(v@.take(n as int) =~= v@);
    while n > 1 && (v[n - 1] == '/' || (v[n - 1] == '.' && v[n - 2] == '/'))
        invariant
            n <= v.len(),
            bare(v@) == bare(v@.take(n as int)),
        decreases n,
    {
        assert(v@.take(n as int).drop_last() =~= v@.take(n - 1));
        n -= 1;
    }
    n
}

/// The position behind the last slash among the first `n` characters.
fn start_of_name(v: &[char], n: usize) -> (r: usize)
    requires
        n <= v.len(),
    ensures
        r <= n,
        r == name_start(v@.take(n as int)),
{
    let mut i: usize = n;
    while i > 0 && v[i - 1] != '/'
        invariant
            i <= n <= v.len(),
            name_start(v@.take(n as int)) == name_start(v@.take(i as int)),
        decreases i,
    {
        assert(v@.take(i as int).drop_last() =~= v@.take(i - 1));
        i -= 1;
    }
    i
}

/// The directory that a path stands in.
pub fn parent(path: &str) -> (r: Option<String>)
    ensures
        r.is_some() == parent_of(path@).is_some(),
        r matches Some(p) ==> p@ == parent_of(path@)->0,
{
    let v = chars_of(path);
    let n: usize = bare_length(&v);
    let ghost t = v@.take(n as int);
    if n == 0 || (n == 1 && v[0] == '/') {
        assert(n == 1 ==> t =~= seq!['/']);
        return None;
    }
    assert(t != seq!['/']) by {
        if t == seq!['/'] {
            assert(t.len() == 1 && t[0] == '/');
        }
    }
    let at: usize = start_of_name(&v, n);
    let head = string_of(&v, 0, at);
    assert(head@ =~= t.subrange(0, name_start(t)));
    let w = chars_of(head.as_str());
    let m: usize = bare_length(&w);
    assert(w@.take(m as int) =~= w@.subrange(0, m as int));
    Some(string_of(&w, 0, m))
}

/// The last name of a path, where it has one.
pub fn file_name(path: &str) -> (r: Option<String>)
    ensures
        r.is_some() == file_name_of(path@).is_some(),
        r matches Some(n) ==> n@ == file_name_of(path@)->0,
{
    let v = chars_of(path);
    let n: usize = bare_length(&v);
    let at: usize = start_of_name(&v, n);
    let name = string_of(&v, at, n);
    let ghost t = v@.take(n as int);
    assert(name@ =~= t.subrange(name_start(t), t.len() as int));
    if name.as_str().is_empty() || str_equal(name.as_str(), ".") || str_equal(name.as_str(), "..") {
        None
    } else {
        Some(name)
    }
}

/// The position of the last `.` in a name; -1 where there is none.
pub open spec fn last_dot(s: Seq<char>) -> int
    decreases s.len(),
{
    if s.len() == 0 {
        -1
    } else if s.last() == '.' {
        s.len() - 1
    } else {
        last_dot(s.drop_last())
    }
}

/// What stands behind the last dot of the last name. A dot in front makes no extension.
pub open spec fn extension_of(path: Seq<char>) -> Option<Seq<char>> {
    match file_name_of(path) {
        Some(name) => if last_dot(name) <= 0 {
            None
        } else {
            Some(name.subrange(last_dot(name) + 1, name.len() as int))
        },
        None => None,
    }
}

/// What stands behind the last dot of the last name.
pub fn extension(path: &str) -> (r: Option<String>)
    ensures
        r.is_some() == extension_of(path@).is_some(),
        r matches Some(e) ==> e@ == extension_of(path@)->0,
{
    let name = match file_name(path) {
        Some(n) => n,
        None => {
            return None;
        },
    };
    let v = chars_of(name.as_str());
    let mut i: usize = v.len();
    assert(v@.take(i as int) =~= v@);
    while i > 0 && v[i - 1] != '.'
        invariant
            i <= v.len(),
            v@ == name@,
            last_dot(v@) == last_dot(v@.take(i as int)),
        decreases i,
    {
        assert(v@.take(i as int).drop_last() =~= v@.take(i - 1));
        i -= 1;
    }
    if i <= 1 {
        None
    } else {
        Some(string_of(&v, i, v.len()))
    }
}

/// What is left of a path below a directory: its names behind those of the directory.
pub open spec fn below(path: Seq<char>, dir: Seq<char>) -> Option<Seq<char>> {
    let p = components(path);
    let d = components(dir);
    if absolute(path) == absolute(dir) && d.len() <= p.len() && p.take(d.len() as int) == d {
        Some(crate::text::joined(p.skip(d.len() as int), "/"@))
    } else {
        None
    }
}

/// What is left of a path below a directory.
pub fn path_below(path: &str, dir: &str) -> (r: Option<String>)
    ensures
        r.is_some() == below(path@, dir@).is_some(),
        r matches Some(t) ==> t@ == below(path@, dir@)->0,
{
    let p = path_components(path);
    let d = path_components(dir);
    let ghost ps = str_views(p@);
    let ghost ds = str_views(d@);
    assert(ps.len() == p.len() && ds.len() == d.len());
    if is_absolute(path) != is_absolute(dir) || d.len() > p.len() {
        return None;
    }
    let mut i: usize = 0;
    while i < d.len()
        invariant
            i <= d.len() <= p.len(),
            ps == str_views(p@),
            ds == str_views(d@),
            ps == components(path@),
            ds == components(dir@),
            ps.len() == p.len(),
            ds.len() == d.len(),
            forall|k: int| 0 <= k < i ==> ps[k] == ds[k],
        decreases d.len() - i,
    {
        if !str_equal(p[i], d[i]) {
            assert(ps.take(ds.len() as int)[i as int] != ds[i as int]);
            return None;
        }
        assert(ps[i as int] == ds[i as int]);
        i += 1;
    }
    assert(ps.take(ds.len() as int) =~= ds);
    let mut rest: Vec<String> = Vec::new();
    while i < p.len()
        invariant
            d.len() <= i <= p.len(),
            ps == str_views(p@),
            crate::text::views(rest@) == ps.subrange(d.len() as int, i as int),
        decreases p.len() - i,
    {
        let one = p[i].to_owned();
        proof {
            crate::text::lemma_views_push(rest@, one);
        }
        rest.push(one);
        i += 1;
        assert(crate::text::views(rest@) =~= ps.subrange(d.len() as int, i as int));
    }
    assert(crate::text::views(rest@) =~= ps.skip(ds.len() as int));
    Some(crate::text::join(rest.as_slice(), "/"))
}

/// The paths have the same names.
pub open spec fn same_names(a: Seq<char>, b: Seq<char>) -> bool {
    absolute(a) == absolute(b) && components(a) == components(b)
}

/// Whether the paths have the same names.
pub fn same_path(a: &str, b: &str) -> (r: bool)
    ensures
        r == same_names(a@, b@),
{
    if is_absolute(a) != is_absolute(b) {
        return false;
    }
    let x = path_components(a);
    let y = path_components(b);
    let ghost xs = str_views(x@);
    let ghost ys = str_views(y@);
    assert(xs.len() == x.len() && ys.len() == y.len());
    if x.len() != y.len() {
        return false;
    }
    let mut i: usize = 0;
    while i < x.len()
        invariant
            i <= x.len(),
            x.len() == y.len(),
            xs == str_views(x@),
            ys == str_views(y@),
            xs == components(a@),
            ys == components(b@),
            forall|k: int| 0 <= k < i ==> xs[k] == ys[k],
        decreases x.len() - i,
    {
        assert(xs[i as int] == x@[i as int]@);
        assert(ys[i as int] == y@[i as int]@);
        if !str_equal(x[i], y[i]) {
            return false;
        }
        i += 1;
    }
    assert(xs =~= ys);
    true
}

// ---------------------------------------------------------------------------
// Paths without detours
// ---------------------------------------------------------------------------
/// What is left of the first `n` names where a double dot takes the name before it away.
pub open spec fn resolved(names: Seq<Seq<char>>, n: int) -> Seq<Seq<char>>
    decreases n,
{
    if n <= 0 || n > names.len() {
        Seq::empty()
    } else {
        let t = resolved(names, n - 1);
        if names[n - 1] == ".."@ {
            if t.len() > 0 {
                t.drop_last()
            } else {
                t
            }
        } else if names[n - 1] == "."@ {
            t
        } else {
            t.push(names[n - 1])
        }
    }
}

/// The path without dots and double dots. Above the root there is nothing.
pub open spec fn normalized(path: Seq<char>) -> Seq<char> {
    let names = crate::text::joined(
        resolved(components(path), components(path).len() as int),
        "/"@,
    );
    if absolute(path) {
        "/"@ + names
    } else {
        names
    }
}

/// The path without dots and double dots.
pub fn normalize_path(path: &str) -> (r: String)
    ensures
        r@ == normalized(path@),
{
    let parts = path_components(path);
    let ghost all = str_views(parts@);
    assert(all.len() == parts.len());
    let mut names: Vec<String> = Vec::new();
    let mut i: usize = 0;
    assert(crate::text::views(names@) =~= resolved(all, 0));
    while i < parts.len()
        invariant
            i <= parts.len(),
            all == str_views(parts@),
            all.len() == parts.len(),
            crate::text::views(names@) == resolved(all, i as int),
        decreases parts.len() - i,
    {
        assert(all[i as int] == parts@[i as int]@);
        let ghost before = crate::text::views(names@);
        assert(before.len() == names.len());
        if str_equal(parts[i], "..") {
            let gone = names.pop();
            assert(before.len() > 0 ==> crate::text::views(names@) =~= before.drop_last());
        } else if !str_equal(parts[i], ".") {
            let one = parts[i].to_owned();
            proof {
                crate::text::lemma_views_push(names@, one);
            }
            names.push(one);
        }
        i += 1;
    }
    let text = crate::text::join(names.as_slice(), "/");
    if is_absolute(path) {
        "/".to_owned().concat(text.as_str())
    } else {
        text
    }
}

/// No dot and no double dot is left among resolved names.
pub proof fn law_resolved_names_are_plain(names: Seq<Seq<char>>, n: int, i: int)
    requires
        0 <= i < resolved(names, n).len(),
    ensures
        resolved(names, n)[i] != "."@,
        resolved(names, n)[i] != ".."@,
    decreases n,
{
    let t = resolved(names, n - 1);
    if i < t.len() {
        law_resolved_names_are_plain(names, n - 1, i);
    }
}

/// Names without dots and double dots are left as they are.
pub proof fn law_plain_names_stay(names: Seq<Seq<char>>, n: int)
    requires
        0 <= n <= names.len(),
        forall|i: int| 0 <= i < n ==> #[trigger] names[i] != "."@ && names[i] != ".."@,
    ensures
        resolved(names, n) == names.take(n),
    decreases n,
{
    if n > 0 {
        law_plain_names_stay(names, n - 1);
        assert(names.take(n - 1).push(names[n - 1]) =~= names.take(n));
    } else {
        assert(names.take(0) =~= Seq::empty());
    }
}

/// The path that the first `n` names lead to from a directory.
pub open spec fn walked(base: Seq<char>, names: Seq<Seq<char>>, n: int) -> Seq<char>
    decreases n,
{
    if n <= 0 || n > names.len() {
        base
    } else {
        let t = walked(base, names, n - 1);
        if names[n - 1] == "."@ {
            t
        } else if names[n - 1] == ".."@ {
            match parent_of(t) {
                Some(p) => p,
                None => t,
            }
        } else {
            joined_path(t, names[n - 1])
        }
    }
}

/// Where a path leads from a directory, by the names alone.
pub fn lexical_join(base: &str, relative: &str) -> (r: String)
    ensures
        r@ == if absolute(relative@) {
            relative@
        } else {
            walked(base@, components(relative@), components(relative@).len() as int)
        },
{
    if is_absolute(relative) {
        return relative.to_owned();
    }
    let parts = path_components(relative);
    let ghost all = str_views(parts@);
    assert(all.len() == parts.len());
    let mut out = base.to_owned();
    let mut i: usize = 0;
    while i < parts.len()
        invariant
            i <= parts.len(),
            all == str_views(parts@),
            all.len() == parts.len(),
            out@ == walked(base@, all, i as int),
        decreases parts.len() - i,
    {
        assert(all[i as int] == parts@[i as int]@);
        if !str_equal(parts[i], ".") {
            if str_equal(parts[i], "..") {
                if let Some(p) = parent(out.as_str()) {
                    out = p;
                }
            } else {
                out = join_path(out.as_str(), parts[i]);
            }
        }
        i += 1;
    }
    out
}

/// The path with the last extension exchanged, where that extension is `json`; with one
/// more where it is not.
pub open spec fn lock_path(manifest: Seq<char>) -> Seq<char> {
    if extension_of(manifest) == Some("json"@) {
        bare(manifest).take(bare(manifest).len() - 4) + "lock"@
    } else {
        manifest + ".lock"@
    }
}

/// The lock file that belongs to a manifest.
pub fn lock_path_for(manifest: &str) -> (r: String)
    ensures
        r@ == lock_path(manifest@),
{
    let is_json = match extension(manifest) {
        Some(e) => str_equal(e.as_str(), "json"),
        None => false,
    };
    if is_json {
        let v = chars_of(manifest);
        let n: usize = bare_length(&v);
        proof {
            reveal_strlit("json");
            let t = bare(manifest@);
            let name = file_name_of(manifest@)->0;
            lemma_last_dot(name);
            lemma_name_start(t);
            assert(extension_of(manifest@) == Some("json"@));
            assert("json"@.len() == 4);
            assert(name.subrange(last_dot(name) + 1, name.len() as int).len() == 4);
            assert(t.len() >= name.len());
        }
        let head = string_of(&v, 0, n - 4);
        assert(head@ =~= bare(manifest@).take(bare(manifest@).len() - 4));
        head.concat("lock")
    } else {
        manifest.to_owned().concat(".lock")
    }
}

proof fn lemma_name_start(s: Seq<char>)
    ensures
        0 <= name_start(s) <= s.len(),
    decreases s.len(),
{
    if s.len() > 0 && s.last() != '/' {
        lemma_name_start(s.drop_last());
    }
}

proof fn lemma_last_dot(s: Seq<char>)
    ensures
        -1 <= last_dot(s) < s.len(),
    decreases s.len(),
{
    if s.len() > 0 && s.last() != '.' {
        lemma_last_dot(s.drop_last());
    }
}

} // verus!
