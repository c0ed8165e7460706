//! What holds of the command `status`: every change in an installed package is found and told.
use vstd::prelude::*;

use crate::commands::status::{
    added, bare_changes, change_lines, changed_paths, code_of, current_of, detail_lines, differing,
    note_of, origin_of, previous_of, remote_version_from, remotes_of, report_lines, shortest_of,
    version_lines, Findings, InstalledPackage, LineView, Origin, SnapshotEntry, VersionChange,
};
use crate::holding::{lemma_one_more, lemma_plus};
use crate::paths::same_names;
use crate::text::{
    byte_len, halves, has_suffix, lines_of, replaced, trimmed, trimmed_start, without_prefix,
};

verus! {

/// At the path stands something in the tree, and the same: the same file, or a link to the same
/// place.
pub open spec fn is_unchanged(
    tree: Seq<(String, SnapshotEntry)>,
    path: Seq<char>,
    entry: SnapshotEntry,
) -> bool {
    exists|i: int|
        0 <= i < tree.len() && (#[trigger] tree[i]).0@ == path && match (tree[i].1, entry) {
            (SnapshotEntry::File(x), SnapshotEntry::File(y)) => x == y,
            (SnapshotEntry::Symlink(x), SnapshotEntry::Symlink(y)) => same_names(x@, y@),
            _ => false,
        }
}

proof fn lemma_differing_holds(
    tree: Seq<(String, SnapshotEntry)>,
    other: Seq<(String, SnapshotEntry)>,
    n: int,
    x: Seq<char>,
)
    requires
        0 <= n <= tree.len(),
    ensures
        differing(tree, other, n).contains(x) <==> exists|i: int|
            0 <= i < n && x == "./"@ + (#[trigger] tree[i]).0@ && !is_unchanged(
                other,
                tree[i].0@,
                tree[i].1,
            ),
    decreases n,
{
    if n > 0 {
        lemma_differing_holds(tree, other, n - 1, x);
        let t = differing(tree, other, n - 1);
        lemma_one_more(t, "./"@ + tree[n - 1].0@, x);
        if exists|i: int|
            0 <= i < other.len() && (#[trigger] other[i]).0@ == tree[n - 1].0@
                && crate::commands::status::same_entry(other[i].1, tree[n - 1].1) {
            assert(is_unchanged(other, tree[n - 1].0@, tree[n - 1].1));
        }
        if is_unchanged(other, tree[n - 1].0@, tree[n - 1].1) {
            assert(crate::commands::status::holds(other, tree[n - 1].0@, tree[n - 1].1));
        }
    }
}

proof fn lemma_added_holds(
    tree: Seq<(String, SnapshotEntry)>,
    other: Seq<(String, SnapshotEntry)>,
    n: int,
    x: Seq<char>,
)
    requires
        0 <= n <= tree.len(),
    ensures
        added(tree, other, n).contains(x) <==> exists|i: int|
            0 <= i < n && x == "./"@ + (#[trigger] tree[i]).0@ && !(exists|j: int|
                0 <= j < other.len() && (#[trigger] other[j]).0@ == tree[i].0@),
    decreases n,
{
    if n > 0 {
        lemma_added_holds(tree, other, n - 1, x);
        lemma_one_more(added(tree, other, n - 1), "./"@ + tree[n - 1].0@, x);
    }
}

/// A path is told as changed exactly where what stood there when the package was unpacked is gone
/// or is another now, or where something stands there now and nothing stood there then.
pub proof fn law_every_changed_path_is_found(
    baseline: Seq<(String, SnapshotEntry)>,
    installed: Seq<(String, SnapshotEntry)>,
    x: Seq<char>,
)
    ensures
        changed_paths(baseline, installed).contains(x) <==> (exists|i: int|
            0 <= i < baseline.len() && x == "./"@ + (#[trigger] baseline[i]).0@ && !is_unchanged(
                installed,
                baseline[i].0@,
                baseline[i].1,
            )) || (exists|i: int|
            0 <= i < installed.len() && x == "./"@ + (#[trigger] installed[i]).0@ && !(exists|
                j: int,
            |
                0 <= j < baseline.len() && (#[trigger] baseline[j]).0@ == installed[i].0@)),
{
    let a = differing(baseline, installed, baseline.len() as int);
    let b = added(installed, baseline, installed.len() as int);
    lemma_plus(a, b, x);
    lemma_differing_holds(baseline, installed, baseline.len() as int, x);
    lemma_added_holds(installed, baseline, installed.len() as int, x);
}

proof fn lemma_detail(out: Seq<LineView>, detail: Seq<Seq<char>>, n: int, x: LineView)
    requires
        0 <= n <= detail.len(),
    ensures
        detail_lines(out, detail, n).contains(x) <==> out.contains(x) || exists|k: int|
            0 <= k < n && x == LineView::Stdout("    "@ + trimmed_start(#[trigger] detail[k])),
    decreases n,
{
    if n > 0 {
        lemma_detail(out, detail, n - 1, x);
        lemma_one_more(
            detail_lines(out, detail, n - 1),
            LineView::Stdout("    "@ + trimmed_start(detail[n - 1])),
            x,
        );
    }
}

proof fn lemma_changes(
    out: Seq<LineView>,
    changes: Seq<(String, String)>,
    n: int,
    verbose: bool,
    k: int,
    m: int,
)
    requires
        0 <= n <= changes.len(),
    ensures
        forall|x: LineView|
            out.contains(x) ==> #[trigger] change_lines(out, changes, n, verbose).contains(x),
        0 <= k < n && !verbose ==> change_lines(out, changes, n, verbose).contains(
            LineView::Stdout(changes[k].0@),
        ),
        0 <= k < n && verbose ==> change_lines(out, changes, n, verbose).contains(
            LineView::Stdout(changes[k].0@ + ":"@),
        ),
        0 <= k < n && verbose && 0 <= m < lines_of(changes[k].1@).len() ==> change_lines(
            out,
            changes,
            n,
            verbose,
        ).contains(LineView::Stdout("    "@ + trimmed_start(lines_of(changes[k].1@)[m]))),
    decreases n,
{
    if n > 0 {
        lemma_changes(out, changes, n - 1, verbose, k, m);
        let t = change_lines(out, changes, n - 1, verbose);
        let path = changes[n - 1].0@;
        let detail = lines_of(changes[n - 1].1@);
        let head = t.push(LineView::Stdout(path + ":"@));
        let whole = change_lines(out, changes, n, verbose);
        assert forall|x: LineView| #![trigger whole.contains(x)] t.contains(x) implies whole.contains(
            x,
        ) by {
            lemma_one_more(t, LineView::Stdout(path + ":"@), x);
            lemma_one_more(t, LineView::Stdout(path), x);
            lemma_detail(head, detail, detail.len() as int, x);
        }
        if k == n - 1 {
            if verbose {
                let x = LineView::Stdout(path + ":"@);
                lemma_one_more(t, x, x);
                lemma_detail(head, detail, detail.len() as int, x);
                if 0 <= m < detail.len() {
                    lemma_detail(
                        head,
                        detail,
                        detail.len() as int,
                        LineView::Stdout("    "@ + trimmed_start(detail[m])),
                    );
                }
            } else {
                lemma_one_more(t, LineView::Stdout(path), LineView::Stdout(path));
            }
        }
    }
}

/// What is told of a version: the version, or the commit where there is none, and the commit
/// besides where more is asked for.
pub open spec fn version_told(version: Seq<char>, reference: Seq<char>, verbose: u8) -> Seq<char> {
    if verbose > 1 && version.len() > 0 {
        version + (" ("@ + reference + ")"@)
    } else if verbose > 1 {
        reference + (" ("@ + reference + ")"@)
    } else if version.len() > 0 {
        version
    } else {
        reference
    }
}

/// What is told of the versions of a package.
pub open spec fn move_told(c: VersionChange, verbose: u8) -> Seq<char> {
    "    From "@ + version_told(c.previous_version@, c.previous_ref@, verbose) + " to "@
        + version_told(c.current_version@, c.current_ref@, verbose)
}

proof fn lemma_versions(
    out: Seq<LineView>,
    changes: Seq<(String, VersionChange)>,
    n: int,
    verbose: u8,
    k: int,
)
    requires
        0 <= n <= changes.len(),
    ensures
        forall|x: LineView|
            out.contains(x) ==> #[trigger] version_lines(out, changes, n, verbose).contains(x),
        0 <= k < n && verbose == 0 ==> version_lines(out, changes, n, verbose).contains(
            LineView::Stdout(changes[k].0@),
        ),
        0 <= k < n && verbose > 0 ==> version_lines(out, changes, n, verbose).contains(
            LineView::Stdout(changes[k].0@ + ":"@),
        ) && version_lines(out, changes, n, verbose).contains(
            LineView::Stdout(move_told(changes[k].1, verbose)),
        ),
    decreases n,
{
    if n > 0 {
        lemma_versions(out, changes, n - 1, verbose, k);
        let t = version_lines(out, changes, n - 1, verbose);
        let path = changes[n - 1].0@;
        let a = LineView::Stdout(path + ":"@);
        let b = LineView::Stdout(move_told(changes[n - 1].1, verbose));
        let whole = version_lines(out, changes, n, verbose);
        if verbose > 0 {
            assert(whole == t.push(a).push(b));
        }
        assert forall|x: LineView| #![trigger whole.contains(x)] t.contains(x) implies whole.contains(
            x,
        ) by {
            lemma_one_more(t, a, x);
            lemma_one_more(t.push(a), b, x);
            lemma_one_more(t, LineView::Stdout(path), x);
        }
        lemma_one_more(t, a, a);
        lemma_one_more(t.push(a), b, a);
        lemma_one_more(t.push(a), b, b);
        lemma_one_more(t, LineView::Stdout(path), LineView::Stdout(path));
    }
}

proof fn lemma_report(f: Findings, verbose: u8, k: int, m: int)
    ensures
        ({
            let r = report_lines(f, verbose);
            let e = f.errors@;
            let u = f.unpushed@;
            let v = f.versions@;
            &&& 0 <= k < e.len() && verbose == 0 ==> r.contains(LineView::Stdout(e[k].0@))
            &&& 0 <= k < u.len() && verbose == 0 ==> r.contains(LineView::Stdout(u[k].0@))
            &&& 0 <= k < v.len() && verbose == 0 ==> r.contains(LineView::Stdout(v[k].0@))
            &&& 0 <= k < e.len() && verbose > 0 ==> r.contains(LineView::Stdout(e[k].0@ + ":"@))
            &&& 0 <= k < u.len() && verbose > 0 ==> r.contains(LineView::Stdout(u[k].0@ + ":"@))
            &&& 0 <= k < v.len() && verbose > 0 ==> r.contains(LineView::Stdout(v[k].0@ + ":"@))
                && r.contains(LineView::Stdout(move_told(v[k].1, verbose)))
            &&& 0 <= k < e.len() && verbose > 0 && 0 <= m < lines_of(e[k].1@).len() ==> r.contains(
                LineView::Stdout("    "@ + trimmed_start(lines_of(e[k].1@)[m])),
            )
            &&& 0 <= k < u.len() && verbose > 0 && 0 <= m < lines_of(u[k].1@).len() ==> r.contains(
                LineView::Stdout("    "@ + trimmed_start(lines_of(u[k].1@)[m])),
            )
        }),
{
    let e = f.errors@;
    let u = f.unpushed@;
    let v = f.versions@;
    let r = report_lines(f, verbose);
    let h1 = Seq::empty().push(LineView::Stderr("You have changes in the following dependencies:"@));
    let a = if e.len() > 0 {
        change_lines(h1, e, e.len() as int, verbose > 0)
    } else {
        Seq::empty()
    };
    let l2 = LineView::Stderr(
        "You have unpushed changes on the current branch in the following dependencies:"@,
    );
    let b = if u.len() > 0 {
        change_lines(a.push(l2), u, u.len() as int, verbose > 0)
    } else {
        a
    };
    let l3 = LineView::Stderr("You have version variations in the following dependencies:"@);
    let c = if v.len() > 0 {
        version_lines(b.push(l3), v, v.len() as int, verbose)
    } else {
        b
    };
    let l4 = LineView::Stderr("Use --verbose (-v) to see a list of files"@);
    lemma_changes(h1, e, e.len() as int, verbose > 0, k, m);
    lemma_changes(a.push(l2), u, u.len() as int, verbose > 0, k, m);
    lemma_versions(b.push(l3), v, v.len() as int, verbose, k);
    if e.len() > 0 || u.len() > 0 || v.len() > 0 {
        assert forall|x: LineView| #[trigger] c.contains(x) implies r.contains(x) by {
            lemma_one_more(c, l4, x);
        }
        assert forall|x: LineView| #[trigger] b.contains(x) implies c.contains(x) by {
            lemma_one_more(b, l3, x);
            assert(version_lines(b.push(l3), v, v.len() as int, verbose).contains(x) || v.len()
                == 0);
        }
        assert forall|x: LineView| #[trigger] a.contains(x) implies b.contains(x) by {
            lemma_one_more(a, l2, x);
            assert(change_lines(a.push(l2), u, u.len() as int, verbose > 0).contains(x) || u.len()
                == 0);
        }
    }
}

/// Every package with changes, with unpushed changes or at another version is told of, in short by
/// its place alone.
pub proof fn law_every_finding_is_told(f: Findings, k: int)
    ensures
        0 <= k < f.errors@.len() ==> report_lines(f, 0).contains(
            LineView::Stdout(f.errors@[k].0@),
        ),
        0 <= k < f.unpushed@.len() ==> report_lines(f, 0).contains(
            LineView::Stdout(f.unpushed@[k].0@),
        ),
        0 <= k < f.versions@.len() ==> report_lines(f, 0).contains(
            LineView::Stdout(f.versions@[k].0@),
        ),
{
    lemma_report(f, 0, k, 0);
}

/// Where more is asked for, every line of what was found is told, and from which version to which
/// a package went.
pub proof fn law_every_detail_is_told(f: Findings, verbose: u8, k: int, m: int)
    requires
        verbose > 0,
    ensures
        0 <= k < f.errors@.len() && 0 <= m < lines_of(f.errors@[k].1@).len() ==> report_lines(
            f,
            verbose,
        ).contains(LineView::Stdout("    "@ + trimmed_start(lines_of(f.errors@[k].1@)[m]))),
        0 <= k < f.unpushed@.len() && 0 <= m < lines_of(f.unpushed@[k].1@).len() ==> report_lines(
            f,
            verbose,
        ).contains(LineView::Stdout("    "@ + trimmed_start(lines_of(f.unpushed@[k].1@)[m]))),
        0 <= k < f.versions@.len() ==> report_lines(f, verbose).contains(
            LineView::Stdout(
                "    From "@ + version_told(
                    f.versions@[k].1.previous_version@,
                    f.versions@[k].1.previous_ref@,
                    verbose,
                ) + " to "@ + version_told(
                    f.versions@[k].1.current_version@,
                    f.versions@[k].1.current_ref@,
                    verbose,
                ),
            ),
        ),
{
    lemma_report(f, verbose, k, m);
}

/// The code tells every kind of finding apart: one for changes, two for unpushed changes and four
/// for other versions, added up.
pub proof fn law_code_adds_up(f: Findings)
    ensures
        code_of(f) == (if f.errors@.len() > 0 {
            1int
        } else {
            0
        }) + (if f.unpushed@.len() > 0 {
            2int
        } else {
            0
        }) + (if f.versions@.len() > 0 {
            4int
        } else {
            0
        }),
{
}

/// Changes that were found are noted as they are, a failure is noted too, and a package without
/// changes is noted only where it is a link.
pub proof fn law_changes_are_noted(path: Seq<char>, is_symlink: bool, text: Seq<char>)
    ensures
        note_of(path, is_symlink, Ok(Some(text))) == Some(text),
        note_of(path, is_symlink, Err(text)) == Some("Failed to detect changes: "@ + text),
        note_of(path, is_symlink, Ok(None)) == (if is_symlink {
            Some(path + " is a symbolic link."@)
        } else {
            None
        }),
{
}

proof fn lemma_remotes(all: Seq<Seq<char>>, branch: Seq<char>, n: int, x: Seq<char>)
    requires
        0 <= n <= all.len(),
    ensures
        remotes_of(all, branch, n).contains(x) <==> exists|i: int|
            0 <= i < n && x == #[trigger] all[i] && has_suffix(x, "/"@ + branch),
    decreases n,
{
    if n > 0 {
        lemma_remotes(all, branch, n - 1, x);
        lemma_one_more(remotes_of(all, branch, n - 1), all[n - 1], x);
    }
}

/// The remote branches that are looked at are all those with the name of the branch, and no
/// others.
pub proof fn law_remote_branches_are_those_named(
    all: Seq<Seq<char>>,
    branch: Seq<char>,
    x: Seq<char>,
)
    ensures
        remotes_of(all, branch, all.len() as int).contains(x) <==> all.contains(x) && has_suffix(
            x,
            "/"@ + branch,
        ),
{
    lemma_remotes(all, branch, all.len() as int, x);
    if all.contains(x) {
        let i = choose|i: int| 0 <= i < all.len() && all[i] == x;
        assert(all[i] == x);
    }
}

proof fn lemma_shortest(outputs: Seq<Seq<char>>, n: int)
    requires
        0 <= n <= outputs.len(),
    ensures
        shortest_of(outputs, n) is None <==> forall|i: int|
            0 <= i < n ==> bare_changes(#[trigger] outputs[i]).len() == 0,
        shortest_of(outputs, n) matches Some(s) ==> s.len() > 0 && (exists|i: int|
            0 <= i < n && s == bare_changes(#[trigger] outputs[i])) && (forall|i: int|
            0 <= i < n && bare_changes(#[trigger] outputs[i]).len() > 0 ==> byte_len(s)
                <= byte_len(bare_changes(outputs[i]))),
    decreases n,
{
    if n > 0 {
        lemma_shortest(outputs, n - 1);
        if let Some(s) = shortest_of(outputs, n - 1) {
            let i = choose|i: int| 0 <= i < n - 1 && s == bare_changes(#[trigger] outputs[i]);
            assert(s == bare_changes(outputs[i]));
        }
        assert(bare_changes(outputs[n - 1]) == bare_changes(outputs[n - 1]));
    }
}

/// Of the differences to the remote branches the shortest that is any is told, and nothing exactly
/// where the package differs from none.
pub proof fn law_shortest_difference_is_told(outputs: Seq<Seq<char>>)
    ensures
        shortest_of(outputs, outputs.len() as int) is None <==> forall|i: int|
            0 <= i < outputs.len() ==> replaced(
                trimmed(#[trigger] outputs[i]),
                "\t"@,
                ""@,
            ).len() == 0,
        shortest_of(outputs, outputs.len() as int) matches Some(s) ==> s.len() > 0 && (exists|i: int|
            0 <= i < outputs.len() && s == replaced(trimmed(#[trigger] outputs[i]), "\t"@, ""@))
            && (forall|i: int|
            0 <= i < outputs.len() && replaced(trimmed(#[trigger] outputs[i]), "\t"@, ""@).len() > 0
                ==> byte_len(s) <= byte_len(replaced(trimmed(outputs[i]), "\t"@, ""@))),
{
    lemma_shortest(outputs, outputs.len() as int);
    let n = outputs.len() as int;
    if shortest_of(outputs, n) is None {
        assert forall|i: int| 0 <= i < n implies replaced(
            trimmed(#[trigger] outputs[i]),
            "\t"@,
            ""@,
        ).len() == 0 by {
            assert(bare_changes(outputs[i]).len() == 0);
        }
    } else {
        let s = shortest_of(outputs, n)->0;
        let i = choose|i: int| 0 <= i < n && s == bare_changes(#[trigger] outputs[i]);
        assert(s == replaced(trimmed(outputs[i]), "\t"@, ""@));
        assert forall|j: int|
            0 <= j < n && replaced(trimmed(#[trigger] outputs[j]), "\t"@, ""@).len()
                > 0 implies byte_len(s) <= byte_len(replaced(trimmed(outputs[j]), "\t"@, ""@)) by {
            assert(bare_changes(outputs[j]).len() > 0);
        }
        assert(bare_changes(outputs[i]).len() > 0);
    }
}

/// A package is compared in the way it was installed: by the note that says so, and without a note
/// by its archive before its sources. The commit that it is held against is that of the same.
pub proof fn law_installed_from(p: InstalledPackage)
    ensures
        p.installation_source matches Some(s) ==> {
            &&& s@ == "source"@ ==> origin_of(p) == Origin::Source
            &&& s@ == "dist"@ ==> origin_of(p) == Origin::Dist
            &&& s@ != "source"@ && s@ != "dist"@ ==> origin_of(p) == Origin::Other
            &&& s@ == "source"@ ==> (p.source matches Some(o) ==> previous_of(p) == Some(
                o.reference@,
            ))
            &&& s@ == "dist"@ ==> (p.dist matches Some(d) ==> match d.reference {
                Some(r) => previous_of(p) == Some(r@),
                None => previous_of(p) is None,
            })
        },
        p.installation_source is None ==> {
            &&& p.dist is Some ==> origin_of(p) == Origin::Dist
            &&& p.dist is None && p.source is Some ==> origin_of(p) == Origin::Source
            &&& p.dist is None && p.source is None ==> origin_of(p) == Origin::Other
            &&& previous_of(p) is None
        },
{
    reveal_strlit("source");
    reveal_strlit("dist");
    assert("source"@.len() == 6);
    assert("dist"@.len() == 4);
}

/// The version that a package is at is its tag where it has one, else its branch.
pub proof fn law_tag_comes_before_branch(
    tag: Option<Seq<char>>,
    branch: Option<Seq<char>>,
    refs: Option<Seq<char>>,
)
    ensures
        tag matches Some(t) ==> trimmed(t).len() > 0 ==> current_of(tag, branch, refs) == trimmed(
            t,
        ),
        (tag matches Some(t) ==> trimmed(t).len() == 0) ==> (branch matches Some(b) ==> current_of(
            tag,
            branch,
            refs,
        ) == "dev-"@ + trimmed(b)),
        (tag matches Some(t) ==> trimmed(t).len() == 0) && branch is None && refs is None
            ==> current_of(tag, branch, refs) == ""@,
{
}

/// The line names a branch of a remote that is not its default.
pub open spec fn names_branch(line: Seq<char>, branch: Seq<char>) -> bool {
    without_prefix(line, "refs/remotes/"@) is Some && halves(
        without_prefix(line, "refs/remotes/"@)->0,
        '/',
    ) is Some && (halves(without_prefix(line, "refs/remotes/"@)->0, '/')->0).1 == branch && branch
        != "HEAD"@
}

proof fn lemma_remote_version(all: Seq<Seq<char>>, from: int)
    requires
        0 <= from <= all.len(),
    ensures
        remote_version_from(all, from) matches Some(v) ==> exists|i: int, branch: Seq<char>|
            from <= i < all.len() && v == "dev-"@ + branch && #[trigger] names_branch(
                all[i],
                branch,
            ) && forall|j: int, other: Seq<char>|
                from <= j < i ==> !#[trigger] names_branch(all[j], other),
        remote_version_from(all, from) is None ==> forall|j: int, other: Seq<char>|
            from <= j < all.len() ==> !#[trigger] names_branch(all[j], other),
    decreases all.len() - from,
{
    if from < all.len() {
        lemma_remote_version(all, from + 1);
        let line = all[from];
        if exists|b: Seq<char>| #[trigger] names_branch(line, b) {
            let b = choose|b: Seq<char>| #[trigger] names_branch(line, b);
            assert(remote_version_from(all, from) == Some("dev-"@ + b));
            assert(names_branch(all[from], b));
        } else {
            assert(!names_branch(
                line,
                (halves(without_prefix(line, "refs/remotes/"@)->0, '/')->0).1,
            ));
            assert(remote_version_from(all, from) == remote_version_from(all, from + 1));
            if let Some(v) = remote_version_from(all, from + 1) {
                let (i, branch) = choose|i: int, branch: Seq<char>|
                    from + 1 <= i < all.len() && v == "dev-"@ + branch && #[trigger] names_branch(
                        all[i],
                        branch,
                    ) && forall|j: int, other: Seq<char>|
                        from + 1 <= j < i ==> !#[trigger] names_branch(all[j], other);
                assert(names_branch(all[i], branch));
            }
        }
    }
}

/// Without a tag and a branch, the version is that of the first branch of a remote that is not a
/// default, and there is none only where no line names such a branch.
pub proof fn law_first_remote_branch_counts(all: Seq<Seq<char>>)
    ensures
        remote_version_from(all, 0) matches Some(v) ==> exists|i: int, branch: Seq<char>|
            0 <= i < all.len() && v == "dev-"@ + branch && #[trigger] names_branch(all[i], branch)
                && forall|j: int, other: Seq<char>|
                0 <= j < i ==> !#[trigger] names_branch(all[j], other),
        remote_version_from(all, 0) is None ==> forall|j: int, other: Seq<char>|
            0 <= j < all.len() ==> !#[trigger] names_branch(all[j], other),
{
    lemma_remote_version(all, 0);
}

} // verus!
