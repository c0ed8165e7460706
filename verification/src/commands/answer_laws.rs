//! What holds of the answers of the commands: what is said, and with which code they end.
use vstd::prelude::*;

use crate::autoload::file_laws::{lemma_parts, lemma_within};
use crate::commands::status::{
    archive_from, archive_named, extension_for, source_query_of,
};
use crate::commands::why::{
    answer_of, asked_constraint, obstacle_of, table_text, tree_text, Dependent, WhyArgs,
};
use crate::downloader::ArchiveType;
use crate::links::Pairs;
use crate::output::row_text;
use crate::paths::joined_path;
use crate::settings::action::{action_of, auth_path_of, config_path_of, Action};
use crate::settings::write::ConfigArgs;
use crate::text::{ascii_lower, has_infix, padded};

verus! {

/// `why` succeeds where a package depends on the one that is asked for, and `why-not` where none
/// stands in its way; what is found is shown as a table or as a tree.
pub proof fn law_why_tells_what_it_found(
    args: WhyArgs,
    inverted: bool,
    results: Vec<Dependent>,
    root: (Seq<char>, Seq<char>),
    require: Pairs,
    require_dev: Pairs,
)
    ensures
        ({
            let a = answer_of(args, inverted, results, root, require, require_dev);
            &&& !inverted ==> (a.code == 0 <==> results@.len() > 0)
            &&& inverted ==> (a.code == 0 <==> results@.len() == 0)
            &&& a.code == 0 || a.code == 1
            &&& results@.len() > 0 && !args.tree ==> a.out == table_text(results@)
            &&& results@.len() > 0 && args.tree ==> has_infix(
                a.out,
                tree_text(results, ""@, results@.len() as int),
            )
            &&& results@.len() == 0 ==> has_infix(a.out, args.package@)
        }),
{
    let a = answer_of(args, inverted, results, root, require, require_dev);
    if results@.len() > 0 {
        if args.tree {
            lemma_parts(
                root.0 + " "@ + root.1 + "\n"@,
                tree_text(results, ""@, results@.len() as int),
            );
        }
    } else {
        let p = "There is no installed package depending on \""@;
        let n = args.package@;
        let t = p + n + "\""@;
        lemma_parts(p, n);
        lemma_parts(p + n, "\""@);
        lemma_within(t, p + n, n);
        let rest = a.out.skip(t.len() as int);
        assert(a.out =~= t + rest);
        lemma_parts(t, rest);
        lemma_within(a.out, t, n);
    }
}

/// A constraint of a star is none; every other counts as it is written.
pub proof fn law_star_is_no_constraint(args: WhyArgs)
    ensures
        args.constraint is None ==> asked_constraint(args) is None,
        args.constraint matches Some(c) ==> (if c@ == "*"@ {
            asked_constraint(args) is None
        } else {
            asked_constraint(args) == Some(c@)
        }),
{
}

/// The search goes on unless a lock file is asked for that is not there, or nothing is installed
/// that should be.
pub proof fn law_search_needs_packages(
    locked: bool,
    has_lock: bool,
    installed: nat,
    requirements: nat,
)
    ensures
        obstacle_of(locked, has_lock, installed, requirements) is None <==> (locked ==> has_lock)
            && (installed > 0 || requirements == 0),
{
}

/// An archive that is kept is not got again; one that is not is taken from its file or downloaded,
/// and held to its checksum where it has one.
pub proof fn law_kept_archives_are_used(kept: bool, scheme: Option<Seq<char>>, shasum: Seq<char>)
    ensures
        kept ==> archive_from(kept, scheme, shasum) is Kept,
        !kept && scheme == Some("file"@) ==> archive_from(kept, scheme, shasum) is File,
        !kept && scheme is Some && scheme != Some("file"@) && shasum.len() > 0 ==> archive_from(
            kept,
            scheme,
            shasum,
        ) is Verified,
        !kept && scheme is Some && scheme != Some("file"@) && shasum.len() == 0 ==> archive_from(
            kept,
            scheme,
            shasum,
        ) is Download,
        !kept && scheme is None ==> archive_from(kept, scheme, shasum) is Nowhere,
{
}

/// The kinds of archives have their words, and the ending of each kind is a word for it.
pub proof fn law_endings_name_their_kind(kind: ArchiveType)
    ensures
        archive_named(extension_for(kind)) == Some(kind),
{
    reveal_strlit("zip");
    reveal_strlit("tar");
    reveal_strlit("tar.gz");
    reveal_strlit("tgz");
    reveal_strlit("gzip");
    reveal_strlit("tar.bz2");
    reveal_strlit("tbz2");
    reveal_strlit("bzip2");
    reveal_strlit("tar.xz");
    reveal_strlit("txz");
    reveal_strlit("xz");
    assert("zip"@.len() == 3 && "tar"@.len() == 3 && "tar.gz"@.len() == 6 && "tgz"@.len() == 3);
    assert("gzip"@.len() == 4 && "tar.bz2"@.len() == 7 && "tbz2"@.len() == 4);
    assert("bzip2"@.len() == 5 && "tar.xz"@.len() == 6 && "txz"@.len() == 3 && "xz"@.len() == 2);
    assert("zip"@[0] != "tar"@[0]);
    assert("tar.gz"@[4] != "tar.xz"@[4]);
    assert(ascii_lower("zip"@) =~= "zip"@);
    assert(ascii_lower("tar"@) =~= "tar"@);
    assert(ascii_lower("tar.gz"@) =~= "tar.gz"@);
    assert(ascii_lower("tar.bz2"@) =~= "tar.bz2"@);
    assert(ascii_lower("tar.xz"@) =~= "tar.xz"@);
}

/// Each kind of sources is asked in its own way, and no other kind is asked.
pub proof fn law_known_sources_are_asked(kind: Seq<char>)
    ensures
        source_query_of(kind) is Some <==> kind == "git"@ || kind == "hg"@ || kind == "svn"@ || kind
            == "fossil"@,
        kind == "git"@ ==> (source_query_of(kind)->0).0 == ".git"@,
        kind == "hg"@ ==> (source_query_of(kind)->0).0 == ".hg"@,
        kind == "svn"@ ==> (source_query_of(kind)->0).0 == ".svn"@,
{
    reveal_strlit("git");
    reveal_strlit("hg");
    reveal_strlit("svn");
    assert("git"@.len() == 3 && "hg"@.len() == 2 && "svn"@.len() == 3);
    assert("git"@[0] != "svn"@[0]);
}

proof fn lemma_row(columns: Seq<Seq<char>>, widths: Seq<usize>, n: int, k: int)
    requires
        0 <= k < n <= columns.len(),
    ensures
        has_infix(row_text(columns, widths, n), columns[k]),
    decreases n,
{
    let head = row_text(columns, widths, n - 1);
    let w = if n <= widths.len() {
        widths[n - 1] as nat
    } else {
        20
    };
    let cell = padded(columns[n - 1], w);
    lemma_parts(head, cell);
    let whole = row_text(columns, widths, n);
    if k < n - 1 {
        lemma_row(columns, widths, n - 1, k);
        lemma_within(whole, head, columns[k]);
    } else {
        let c = columns[k];
        let rest = cell.skip(c.len() as int);
        assert(cell =~= c + rest);
        lemma_parts(c, rest);
        lemma_within(whole, cell, c);
    }
}

/// Every column stands in its row.
pub proof fn law_every_column_stands_in_its_row(
    columns: Seq<Seq<char>>,
    widths: Seq<usize>,
    k: int,
)
    requires
        0 <= k < columns.len(),
    ensures
        has_infix(row_text(columns, widths, columns.len() as int), columns[k]),
{
    lemma_row(columns, widths, columns.len() as int, k);
}

/// A call with a key and values assigns, with a key alone shows, and takes out where it is asked to;
/// it is turned down where it asks for what does not go together.
pub proof fn law_call_decides_on_the_action(args: ConfigArgs)
    ensures
        args.global && args.file is Some ==> action_of(args) is Err,
        !(args.global && args.file is Some) && args.editor ==> action_of(args) == Ok::<
            Action,
            Seq<char>,
        >(Action::Edit { auth: args.auth }),
        !(args.global && args.file is Some) && !args.editor && args.list ==> action_of(args) == Ok::<
            Action,
            Seq<char>,
        >(Action::List),
        !(args.global && args.file is Some) && !args.editor && !args.list && args.setting_key is Some
            && args.setting_value@.len() > 0 ==> (if args.unset {
            action_of(args) is Err
        } else {
            action_of(args) == Ok::<Action, Seq<char>>(Action::Assign)
        }),
        !(args.global && args.file is Some) && !args.editor && !args.list && args.setting_key is Some
            && args.setting_value@.len() == 0 ==> action_of(args) == Ok::<Action, Seq<char>>(
            if args.unset {
                Action::Unset
            } else {
                Action::Show
            },
        ),
{
}

/// A global call works on the files in the home directory, every other on the file it names, or on
/// the manifest of the project.
pub proof fn law_call_decides_on_the_file(args: ConfigArgs, dir: Seq<char>, home: Seq<char>)
    ensures
        args.global ==> config_path_of(args, dir, home) == joined_path(home, "config.json"@)
            && auth_path_of(args, dir, home) == joined_path(home, "auth.json"@),
        !args.global ==> (args.file matches Some(f) ==> config_path_of(args, dir, home)
            == joined_path(dir, f@)),
        !args.global && args.file is None ==> config_path_of(args, dir, home) == joined_path(
            dir,
            "composer.json"@,
        ),
{
}

} // verus!
