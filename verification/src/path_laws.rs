//! What holds of paths: how they are put together and taken apart.
use vstd::prelude::*;

use crate::paths::{
    absolute, bare, below, components, extension_of, file_name_of, joined_path, last_dot,
    lock_path, name_start, parent_of,
};
use crate::text::{has_prefix, has_suffix, joined};

verus! {

/// A path seen from a directory ends with the path and starts with the directory, with one slash
/// between them; an absolute path stays.
pub proof fn law_paths_are_joined_with_one_slash(base: Seq<char>, path: Seq<char>)
    ensures
        has_suffix(joined_path(base, path), path),
        absolute(path) ==> joined_path(base, path) == path,
        !absolute(path) ==> has_prefix(joined_path(base, path), base),
        !absolute(path) && base.len() > 0 && base.last() != '/' ==> joined_path(base, path) == base
            + seq!['/'] + path,
        !absolute(path) && (base.len() == 0 || base.last() == '/') ==> joined_path(base, path)
            == base + path,
{
    let r = joined_path(base, path);
    assert(r.subrange(r.len() - path.len(), r.len() as int) =~= path);
    if !absolute(path) {
        assert(r.subrange(0, base.len() as int) =~= base);
        if base.len() > 0 && base.last() != '/' {
            assert(r =~= base + seq!['/'] + path);
        }
    }
}

/// A plain name: not empty, without a slash, and no dot alone.
pub open spec fn is_name(s: Seq<char>) -> bool {
    s.len() > 0 && !s.contains('/') && s != seq!['.'] && s != seq!['.', '.']
}

proof fn lemma_bare_name(dir: Seq<char>, name: Seq<char>)
    requires
        is_name(name),
        dir.len() == 0 || dir.last() == '/',
    ensures
        bare(dir + name) == dir + name,
{
    let t = dir + name;
    assert(t.last() == name.last());
    assert(name.contains(name.last()));
    if t.len() > 1 && t.last() == '.' && t[t.len() - 2] == '/' {
        if name.len() == 1 {
            assert(name =~= seq!['.']);
        } else {
            assert(t[t.len() - 2] == name[name.len() - 2]);
            assert(name.contains(name[name.len() - 2]));
        }
    }
}

proof fn lemma_name_start(dir: Seq<char>, name: Seq<char>)
    requires
        !name.contains('/'),
        dir.len() == 0 || dir.last() == '/',
    ensures
        name_start(dir + name) == dir.len(),
    decreases name.len(),
{
    let t = dir + name;
    if name.len() > 0 {
        assert(name.contains(name.last()));
        let rest = name.drop_last();
        assert(t.drop_last() =~= dir + rest);
        assert(!rest.contains('/')) by {
            if rest.contains('/') {
                let i = choose|i: int| 0 <= i < rest.len() && rest[i] == '/';
                assert(name[i] == '/');
            }
        }
        lemma_name_start(dir, rest);
    } else {
        assert(t =~= dir);
    }
}

/// What stands in a directory has its name as its last name, and the directory as its parent.
pub proof fn law_parent_and_name(dir: Seq<char>, name: Seq<char>)
    requires
        is_name(name),
        dir.len() > 0,
        dir.last() != '/',
        !(dir.len() > 1 && dir.last() == '.' && dir[dir.len() - 2] == '/'),
    ensures
        file_name_of(joined_path(dir, name)) == Some(name),
        parent_of(joined_path(dir, name)) == Some(dir),
        file_name_of(name) == Some(name),
{
    reveal_strlit(".");
    reveal_strlit("..");
    assert("."@ =~= seq!['.']);
    assert(".."@ =~= seq!['.', '.']);
    assert(name.contains(name[0]));
    let base = dir.push('/');
    let t = base + name;
    assert(joined_path(dir, name) == t);
    lemma_bare_name(base, name);
    lemma_name_start(base, name);
    assert(t.subrange(base.len() as int, t.len() as int) =~= name);
    assert(t.subrange(0, base.len() as int) =~= base);
    assert(base.drop_last() =~= dir);
    assert(bare(base) == bare(dir));
    assert(bare(dir) == dir);
    assert(t.len() > 1);
    lemma_bare_name(Seq::empty(), name);
    lemma_name_start(Seq::empty(), name);
    assert(Seq::<char>::empty() + name =~= name);
    assert(name.subrange(0, name.len() as int) =~= name);
}

proof fn lemma_last_dot(stem: Seq<char>, end: Seq<char>)
    requires
        !end.contains('.'),
    ensures
        last_dot(stem + seq!['.'] + end) == stem.len(),
    decreases end.len(),
{
    let t = stem + seq!['.'] + end;
    if end.len() > 0 {
        assert(end.contains(end.last()));
        let rest = end.drop_last();
        assert(t.drop_last() =~= stem + seq!['.'] + rest);
        assert(!rest.contains('.')) by {
            if rest.contains('.') {
                let i = choose|i: int| 0 <= i < rest.len() && rest[i] == '.';
                assert(end[i] == '.');
            }
        }
        lemma_last_dot(stem, rest);
    } else {
        assert(t.last() == '.');
    }
}

proof fn lemma_named(stem: Seq<char>, end: Seq<char>)
    requires
        stem.len() > 0,
        end.len() > 0,
        !stem.contains('/'),
        !end.contains('/'),
        !end.contains('.'),
    ensures
        is_name(stem + seq!['.'] + end),
        file_name_of(stem + seq!['.'] + end) == Some(stem + seq!['.'] + end),
        bare(stem + seq!['.'] + end) == stem + seq!['.'] + end,
{
    let name = stem + seq!['.'] + end;
    reveal_strlit(".");
    reveal_strlit("..");
    assert("."@ =~= seq!['.']);
    assert(".."@ =~= seq!['.', '.']);
    assert(!name.contains('/')) by {
        if name.contains('/') {
            let i = choose|i: int| 0 <= i < name.len() && name[i] == '/';
            if i < stem.len() {
                assert(stem[i] == '/');
            } else if i > stem.len() {
                assert(end[i - stem.len() - 1] == '/');
            }
        }
    }
    assert(name.len() >= 3);
    lemma_bare_name(Seq::empty(), name);
    lemma_name_start(Seq::empty(), name);
    assert(Seq::<char>::empty() + name =~= name);
    assert(name.subrange(0, name.len() as int) =~= name);
}

/// What stands behind the last dot of a file is its extension.
pub proof fn law_extension_stands_behind_the_dot(stem: Seq<char>, end: Seq<char>)
    requires
        stem.len() > 0,
        end.len() > 0,
        !stem.contains('/'),
        !end.contains('/'),
        !end.contains('.'),
    ensures
        extension_of(stem + seq!['.'] + end) == Some(end),
{
    let name = stem + seq!['.'] + end;
    lemma_named(stem, end);
    lemma_last_dot(stem, end);
    assert(name.subrange(stem.len() as int + 1, name.len() as int) =~= end);
}

/// The lock file of a manifest has its name with the other ending, and stands beside it; behind
/// another ending it is added.
pub proof fn law_lock_stands_beside_its_manifest(stem: Seq<char>, end: Seq<char>)
    requires
        stem.len() > 0,
        end.len() > 0,
        !stem.contains('/'),
        !end.contains('/'),
        !end.contains('.'),
    ensures
        lock_path(stem + seq!['.'] + "json"@) == stem + seq!['.'] + "lock"@,
        end != "json"@ ==> lock_path(stem + seq!['.'] + end) == stem + seq!['.'] + end + ".lock"@,
{
    reveal_strlit("json");
    reveal_strlit("lock");
    let json = "json"@;
    assert(json.len() == 4);
    assert(!json.contains('/') && !json.contains('.')) by {
        if json.contains('/') {
            let i = choose|i: int| 0 <= i < json.len() && json[i] == '/';
        }
        if json.contains('.') {
            let i = choose|i: int| 0 <= i < json.len() && json[i] == '.';
        }
    }
    lemma_named(stem, json);
    law_extension_stands_behind_the_dot(stem, json);
    law_extension_stands_behind_the_dot(stem, end);
    let name = stem + seq!['.'] + json;
    assert(name.take(name.len() - 4) =~= stem + seq!['.']);
}

/// A path is below a directory exactly where it starts with all its names, and what is left are the
/// names behind them.
pub proof fn law_below_a_directory(path: Seq<char>, dir: Seq<char>, rest: Seq<Seq<char>>)
    ensures
        absolute(path) == absolute(dir) && components(path) == components(dir) + rest ==> below(
            path,
            dir,
        ) == Some(joined(rest, "/"@)),
        below(path, dir) is Some ==> absolute(path) == absolute(dir) && components(dir).len()
            <= components(path).len() && components(path).take(components(dir).len() as int)
            == components(dir),
{
    let p = components(path);
    let d = components(dir);
    if p == d + rest {
        assert(p.take(d.len() as int) =~= d);
        assert(p.skip(d.len() as int) =~= rest);
    }
}

} // verus!
