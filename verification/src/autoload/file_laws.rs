//! What holds of the files of the loader: whatever the loader is to know stands in them.
use vstd::prelude::*;
use vstd::utf8::encode_utf8;

use crate::autoload::code::static_path;
use crate::autoload::collect::{CollectedView, Directories};
use crate::autoload::files::{
    autoload_classmap, autoload_files, autoload_namespaces, autoload_php, autoload_psr4,
    autoload_real, class_entries, directory_entries, entry_block, file_entries, platform_check,
    quoted_name, CLASSMAP_HEAD, FILE_LIST_HEAD, NAMESPACES_HEAD, PSR4_HEAD,
};
use crate::autoload::generate::loader_files;
use crate::autoload::static_file::{
    autoload_static, class_lines, dir_lines, file_lines, holds, initial,
    law_letters_cover_namespaces, length_groups, length_lines, letters_of, numbered_dirs,
    prefix_groups, prefix_lines,
};
use crate::autoload::types::AutoloadConfig;
use crate::holding::lemma_infix_plus;
use crate::links::Pairs;
use crate::paths::joined_path;
use crate::text::{decimal, has_infix, joined, occurs_at};

verus! {

pub proof fn lemma_within(whole: Seq<char>, part: Seq<char>, x: Seq<char>)
    requires
        has_infix(whole, part),
        has_infix(part, x),
    ensures
        has_infix(whole, x),
{
    let i = choose|i: int| #[trigger] occurs_at(whole, part, i);
    let j = choose|j: int| #[trigger] occurs_at(part, x, j);
    assert(whole.subrange(i + j, i + j + x.len()) =~= part.subrange(j, j + x.len()));
    assert(occurs_at(whole, x, i + j));
}

/// Both parts of a text stand in it.
pub proof fn lemma_parts(a: Seq<char>, b: Seq<char>)
    ensures
        has_infix(a + b, a),
        has_infix(a + b, b),
{
    lemma_infix_plus(a, b, a);
    lemma_infix_plus(a, b, b);
}

pub proof fn lemma_joined_holds(parts: Seq<Seq<char>>, sep: Seq<char>, k: int)
    requires
        0 <= k < parts.len(),
    ensures
        has_infix(joined(parts, sep), parts[k]),
    decreases parts.len(),
{
    if parts.len() == 1 {
        lemma_infix_plus(parts[0], parts[0], parts[0]);
    } else {
        let head = joined(parts.drop_last(), sep);
        let whole = joined(parts, sep);
        lemma_parts(head + sep, parts.last());
        if k < parts.len() - 1 {
            lemma_joined_holds(parts.drop_last(), sep, k);
            assert(parts.drop_last()[k] == parts[k]);
            lemma_parts(head, sep);
            lemma_within(head + sep, head, parts[k]);
            lemma_within(whole, head + sep, parts[k]);
        }
    }
}

proof fn lemma_block(entries: Seq<Seq<char>>, head: Seq<char>, tail: Seq<char>, k: int)
    requires
        0 <= k < entries.len(),
    ensures
        has_infix(head + entry_block(entries) + tail, entries[k]),
{
    let j = joined(entries, ",\n"@);
    lemma_joined_holds(entries, ",\n"@, k);
    lemma_parts(j, ",\n"@);
    lemma_within(entry_block(entries), j, entries[k]);
    lemma_parts(head, entry_block(entries));
    lemma_within(head + entry_block(entries), entry_block(entries), entries[k]);
    lemma_parts(head + entry_block(entries), tail);
    lemma_within(
        head + entry_block(entries) + tail,
        head + entry_block(entries),
        entries[k],
    );
}

/// Every namespace that the loader is to know stands in its file, with all its directories; every
/// class stands in the class map, and every file in the list of files, each with its code.
pub proof fn law_files_tell_everything(
    psr4: Directories,
    psr0: Directories,
    classes: Pairs,
    files: Pairs,
    k: int,
)
    ensures
        0 <= k < psr4.len() ==> has_infix(
            autoload_psr4(psr4),
            "    '"@ + quoted_name(psr4[k].0) + "' => array("@ + joined(psr4[k].1, ", "@) + ")"@,
        ),
        0 <= k < psr0.len() ==> has_infix(
            autoload_namespaces(psr0),
            "    '"@ + quoted_name(psr0[k].0) + "' => array("@ + joined(psr0[k].1, ", "@) + ")"@,
        ),
        0 <= k < classes.len() ==> has_infix(
            autoload_classmap(classes),
            "    '"@ + quoted_name(classes[k].0) + "' => "@ + classes[k].1,
        ),
        0 <= k < files.len() ==> has_infix(
            autoload_files(files),
            "    '"@ + files[k].0 + "' => "@ + files[k].1,
        ),
{
    if 0 <= k < psr4.len() {
        let entries = directory_entries(psr4);
        let at = psr4.len() - 1 - k;
        assert(psr4.reverse()[at] == psr4[k]);
        let j = joined(entries, ",\n"@);
        lemma_joined_holds(entries, ",\n"@, at);
        lemma_parts(PSR4_HEAD@, j);
        lemma_within(PSR4_HEAD@ + j, j, entries[at]);
        lemma_parts(PSR4_HEAD@ + j, ",\n);\n"@);
        lemma_within(autoload_psr4(psr4), PSR4_HEAD@ + j, entries[at]);
    }
    if 0 <= k < psr0.len() {
        let entries = directory_entries(psr0);
        let at = psr0.len() - 1 - k;
        assert(psr0.reverse()[at] == psr0[k]);
        lemma_block(entries, NAMESPACES_HEAD@, ");\n"@, at);
    }
    if 0 <= k < classes.len() {
        lemma_block(class_entries(classes), CLASSMAP_HEAD@, ");\n"@, k);
    }
    if 0 <= k < files.len() {
        lemma_block(file_entries(files), FILE_LIST_HEAD@, ");\n"@, k);
    }
}

/// Every directory of a list stands in it.
pub proof fn law_directories_stand_in_their_line(dirs: Seq<Seq<char>>, m: int)
    requires
        0 <= m < dirs.len(),
    ensures
        has_infix(joined(dirs, ", "@), dirs[m]),
{
    lemma_joined_holds(dirs, ", "@, m);
}

// ---------------------------------------------------------------------------
// The static file
// ---------------------------------------------------------------------------
proof fn lemma_file_lines(out: Seq<char>, files: Pairs, n: int, k: int)
    requires
        0 <= n <= files.len(),
    ensures
        has_infix(file_lines(out, files, n), out),
        0 <= k < n ==> has_infix(
            file_lines(out, files, n),
            "        '"@ + files[k].0 + "' => "@ + static_path(files[k].1) + ",\n"@,
        ),
    decreases n,
{
    let r = file_lines(out, files, n);
    lemma_infix_plus(out, out, out);
    if n > 0 {
        lemma_file_lines(out, files, n - 1, k);
        let t = file_lines(out, files, n - 1);
        let line = "        '"@ + files[n - 1].0 + "' => "@ + static_path(files[n - 1].1) + ",\n"@;
        assert(r =~= t + line);
        lemma_parts(t, line);
        lemma_within(r, t, out);
        if k < n - 1 && 0 <= k {
            lemma_within(
                r,
                t,
                "        '"@ + files[k].0 + "' => "@ + static_path(files[k].1) + ",\n"@,
            );
        }
    }
}

proof fn lemma_class_lines(out: Seq<char>, classes: Pairs, n: int, k: int)
    requires
        0 <= n <= classes.len(),
    ensures
        has_infix(class_lines(out, classes, n), out),
        0 <= k < n ==> has_infix(
            class_lines(out, classes, n),
            "        '"@ + quoted_name(classes[k].0) + "' => "@ + static_path(classes[k].1)
                + ",\n"@,
        ),
    decreases n,
{
    let r = class_lines(out, classes, n);
    lemma_infix_plus(out, out, out);
    if n > 0 {
        lemma_class_lines(out, classes, n - 1, k);
        let t = class_lines(out, classes, n - 1);
        let line = "        '"@ + quoted_name(classes[n - 1].0) + "' => "@ + static_path(
            classes[n - 1].1,
        ) + ",\n"@;
        assert(r =~= t + line);
        lemma_parts(t, line);
        lemma_within(r, t, out);
        if 0 <= k < n - 1 {
            lemma_within(
                r,
                t,
                "        '"@ + quoted_name(classes[k].0) + "' => "@ + static_path(classes[k].1)
                    + ",\n"@,
            );
        }
    }
}

proof fn lemma_numbered_dirs(
    out: Seq<char>,
    dirs: Seq<Seq<char>>,
    n: int,
    indent: Seq<char>,
    m: int,
)
    requires
        0 <= n <= dirs.len(),
    ensures
        has_infix(numbered_dirs(out, dirs, n, indent), out),
        0 <= m < n ==> has_infix(
            numbered_dirs(out, dirs, n, indent),
            indent + decimal(m as nat) + " => "@ + static_path(dirs[m]) + ",\n"@,
        ),
    decreases n,
{
    let r = numbered_dirs(out, dirs, n, indent);
    lemma_infix_plus(out, out, out);
    if n > 0 {
        lemma_numbered_dirs(out, dirs, n - 1, indent, m);
        let t = numbered_dirs(out, dirs, n - 1, indent);
        let line = indent + decimal((n - 1) as nat) + " => "@ + static_path(dirs[n - 1]) + ",\n"@;
        assert(r =~= t + line);
        lemma_parts(t, line);
        lemma_within(r, t, out);
        if 0 <= m < n - 1 {
            lemma_within(
                r,
                t,
                indent + decimal(m as nat) + " => "@ + static_path(dirs[m]) + ",\n"@,
            );
        }
    }
}

proof fn lemma_dir_lines(out: Seq<char>, d: Directories, n: int, k: int, m: int)
    requires
        0 <= n <= d.len(),
    ensures
        has_infix(dir_lines(out, d, n), out),
        0 <= k < n ==> has_infix(
            dir_lines(out, d, n),
            "        '"@ + quoted_name(d[k].0) + "' =>\n        array (\n"@,
        ),
        0 <= k < n && 0 <= m < d[k].1.len() ==> has_infix(
            dir_lines(out, d, n),
            "            "@ + decimal(m as nat) + " => "@ + static_path(d[k].1[m]) + ",\n"@,
        ),
    decreases n,
{
    let r = dir_lines(out, d, n);
    lemma_infix_plus(out, out, out);
    if n > 0 {
        lemma_dir_lines(out, d, n - 1, k, m);
        let t = dir_lines(out, d, n - 1);
        let title = "        '"@ + quoted_name(d[n - 1].0) + "' =>\n        array (\n"@;
        let head = t + "        '"@ + quoted_name(d[n - 1].0) + "' =>\n        array (\n"@;
        assert(head =~= t + title);
        lemma_parts(t, title);
        let own = d[n - 1].1;
        let b = numbered_dirs(head, own, own.len() as int, "            "@);
        lemma_numbered_dirs(head, own, own.len() as int, "            "@, m);
        lemma_parts(b, "        ),\n"@);
        lemma_within(r, b, head);
        lemma_within(r, head, t);
        lemma_within(r, head, title);
        lemma_within(r, t, out);
        if 0 <= k < n - 1 {
            lemma_within(
                r,
                t,
                "        '"@ + quoted_name(d[k].0) + "' =>\n        array (\n"@,
            );
            if 0 <= m < d[k].1.len() {
                lemma_within(
                    r,
                    t,
                    "            "@ + decimal(m as nat) + " => "@ + static_path(d[k].1[m])
                        + ",\n"@,
                );
            }
        } else if k == n - 1 && 0 <= m < own.len() {
            lemma_within(
                r,
                b,
                "            "@ + decimal(m as nat) + " => "@ + static_path(own[m]) + ",\n"@,
            );
        }
    }
}

proof fn lemma_prefix_lines(out: Seq<char>, d: Directories, n: int, c: char, k: int, m: int)
    requires
        0 <= n <= d.len(),
    ensures
        has_infix(prefix_lines(out, d, n, c), out),
        0 <= k < n && initial(d[k].0) == c ==> has_infix(
            prefix_lines(out, d, n, c),
            "            '"@ + quoted_name(d[k].0) + "' =>\n            array (\n"@,
        ),
        0 <= k < n && initial(d[k].0) == c && 0 <= m < d[k].1.len() ==> has_infix(
            prefix_lines(out, d, n, c),
            "                "@ + decimal(m as nat) + " => "@ + static_path(d[k].1[m]) + ",\n"@,
        ),
    decreases n,
{
    let r = prefix_lines(out, d, n, c);
    lemma_infix_plus(out, out, out);
    if n > 0 {
        lemma_prefix_lines(out, d, n - 1, c, k, m);
        let t = prefix_lines(out, d, n - 1, c);
        if initial(d[n - 1].0) == c {
            let title = "            '"@ + quoted_name(d[n - 1].0) + "' =>\n            array (\n"@;
            let head = t + "            '"@ + quoted_name(d[n - 1].0)
                + "' =>\n            array (\n"@;
            assert(head =~= t + title);
            lemma_parts(t, title);
            let own = d[n - 1].1;
            let b = numbered_dirs(head, own, own.len() as int, "                "@);
            lemma_numbered_dirs(head, own, own.len() as int, "                "@, m);
            lemma_parts(b, "            ),\n"@);
            lemma_within(r, b, head);
            lemma_within(r, head, t);
            lemma_within(r, head, title);
            lemma_within(r, t, out);
            if 0 <= k < n - 1 && initial(d[k].0) == c {
                lemma_within(
                    r,
                    t,
                    "            '"@ + quoted_name(d[k].0) + "' =>\n            array (\n"@,
                );
                if 0 <= m < d[k].1.len() {
                    lemma_within(
                        r,
                        t,
                        "                "@ + decimal(m as nat) + " => "@ + static_path(d[k].1[m])
                            + ",\n"@,
                    );
                }
            } else if k == n - 1 && 0 <= m < own.len() {
                lemma_within(
                    r,
                    b,
                    "                "@ + decimal(m as nat) + " => "@ + static_path(own[m])
                        + ",\n"@,
                );
            }
        }
    }
}

proof fn lemma_prefix_groups(
    out: Seq<char>,
    d: Directories,
    letters: Seq<char>,
    n: int,
    k: int,
    m: int,
)
    requires
        0 <= n <= letters.len(),
    ensures
        has_infix(prefix_groups(out, d, letters, n), out),
        0 <= k < d.len() && (exists|i: int| 0 <= i < n && #[trigger] letters[i] == initial(d[k].0))
            ==> has_infix(
            prefix_groups(out, d, letters, n),
            "            '"@ + quoted_name(d[k].0) + "' =>\n            array (\n"@,
        ),
        0 <= k < d.len() && 0 <= m < d[k].1.len() && (exists|i: int|
            0 <= i < n && #[trigger] letters[i] == initial(d[k].0)) ==> has_infix(
            prefix_groups(out, d, letters, n),
            "                "@ + decimal(m as nat) + " => "@ + static_path(d[k].1[m]) + ",\n"@,
        ),
    decreases n,
{
    let r = prefix_groups(out, d, letters, n);
    lemma_infix_plus(out, out, out);
    if n > 0 {
        lemma_prefix_groups(out, d, letters, n - 1, k, m);
        let t = prefix_groups(out, d, letters, n - 1);
        let c = letters[n - 1];
        let tail = seq![c] + "' =>\n        array (\n"@;
        let head = (t + "        '"@).push(c) + "' =>\n        array (\n"@;
        assert(head =~= t + ("        '"@ + tail));
        lemma_parts(t, "        '"@ + tail);
        let b = prefix_lines(head, d, d.len() as int, c);
        lemma_prefix_lines(head, d, d.len() as int, c, k, m);
        lemma_parts(b, "        ),\n"@);
        lemma_within(r, b, head);
        lemma_within(r, head, t);
        lemma_within(r, t, out);
        if 0 <= k < d.len() {
            let title = "            '"@ + quoted_name(d[k].0) + "' =>\n            array (\n"@;
            if initial(d[k].0) == c {
                lemma_within(r, b, title);
                if 0 <= m < d[k].1.len() {
                    lemma_within(
                        r,
                        b,
                        "                "@ + decimal(m as nat) + " => "@ + static_path(d[k].1[m])
                            + ",\n"@,
                    );
                }
            } else if exists|i: int| 0 <= i < n && #[trigger] letters[i] == initial(d[k].0) {
                let i = choose|i: int| 0 <= i < n && #[trigger] letters[i] == initial(d[k].0);
                assert(letters[i] == initial(d[k].0));
                lemma_within(r, t, title);
                if 0 <= m < d[k].1.len() {
                    lemma_within(
                        r,
                        t,
                        "                "@ + decimal(m as nat) + " => "@ + static_path(d[k].1[m])
                            + ",\n"@,
                    );
                }
            }
        }
    }
}

/// The line that tells how long a namespace is.
pub open spec fn length_line(name: Seq<char>) -> Seq<char> {
    "            '"@ + quoted_name(name) + "' => "@ + decimal(
        (encode_utf8(name).len() as usize) as nat,
    ) + ",\n"@
}

proof fn lemma_length_lines(out: Seq<char>, d: Directories, n: int, c: char, k: int)
    requires
        0 <= n <= d.len(),
    ensures
        has_infix(length_lines(out, d, n, c), out),
        0 <= k < n && initial(d[k].0) == c ==> has_infix(
            length_lines(out, d, n, c),
            length_line(d[k].0),
        ),
    decreases n,
{
    let r = length_lines(out, d, n, c);
    lemma_infix_plus(out, out, out);
    if n > 0 {
        lemma_length_lines(out, d, n - 1, c, k);
        let t = length_lines(out, d, n - 1, c);
        if initial(d[n - 1].0) == c {
            let line = length_line(d[n - 1].0);
            assert(r =~= t + line);
            lemma_parts(t, line);
            lemma_within(r, t, out);
            if 0 <= k < n - 1 && initial(d[k].0) == c {
                lemma_within(r, t, length_line(d[k].0));
            }
        }
    }
}

proof fn lemma_length_groups(out: Seq<char>, d: Directories, letters: Seq<char>, n: int, k: int)
    requires
        0 <= n <= letters.len(),
    ensures
        has_infix(length_groups(out, d, letters, n), out),
        0 <= k < d.len() && (exists|i: int| 0 <= i < n && #[trigger] letters[i] == initial(d[k].0))
            ==> has_infix(length_groups(out, d, letters, n), length_line(d[k].0)),
    decreases n,
{
    let r = length_groups(out, d, letters, n);
    lemma_infix_plus(out, out, out);
    if n > 0 {
        lemma_length_groups(out, d, letters, n - 1, k);
        let t = length_groups(out, d, letters, n - 1);
        let c = letters[n - 1];
        let tail = seq![c] + "' =>\n        array (\n"@;
        let head = (t + "        '"@).push(c) + "' =>\n        array (\n"@;
        assert(head =~= t + ("        '"@ + tail));
        lemma_parts(t, "        '"@ + tail);
        let b = length_lines(head, d, d.len() as int, c);
        lemma_length_lines(head, d, d.len() as int, c, k);
        lemma_parts(b, "        ),\n"@);
        lemma_within(r, b, head);
        lemma_within(r, head, t);
        lemma_within(r, t, out);
        if 0 <= k < d.len() {
            if initial(d[k].0) == c {
                lemma_within(r, b, length_line(d[k].0));
            } else if exists|i: int| 0 <= i < n && #[trigger] letters[i] == initial(d[k].0) {
                let i = choose|i: int| 0 <= i < n && #[trigger] letters[i] == initial(d[k].0);
                assert(letters[i] == initial(d[k].0));
                lemma_within(r, t, length_line(d[k].0));
            }
        }
    }
}

/// The static file tells everything too: every file, every class, and every namespace of either
/// kind with each of its directories, those of the first kind also with their lengths.
pub proof fn law_static_file_tells_everything(
    suffix: Seq<char>,
    psr4: Directories,
    psr0: Directories,
    classes: Pairs,
    files: Pairs,
    k: int,
    m: int,
)
    ensures
        0 <= k < files.len() ==> has_infix(
            autoload_static(suffix, psr4, psr0, classes, files),
            "        '"@ + files[k].0 + "' => "@ + static_path(files[k].1) + ",\n"@,
        ),
        0 <= k < classes.len() ==> has_infix(
            autoload_static(suffix, psr4, psr0, classes, files),
            "        '"@ + quoted_name(classes[k].0) + "' => "@ + static_path(classes[k].1)
                + ",\n"@,
        ),
        0 <= k < psr4.len() ==> has_infix(
            autoload_static(suffix, psr4, psr0, classes, files),
            length_line(psr4[k].0),
        ),
        0 <= k < psr4.len() ==> has_infix(
            autoload_static(suffix, psr4, psr0, classes, files),
            "        '"@ + quoted_name(psr4[k].0) + "' =>\n        array (\n"@,
        ),
        0 <= k < psr4.len() && 0 <= m < psr4[k].1.len() ==> has_infix(
            autoload_static(suffix, psr4, psr0, classes, files),
            "            "@ + decimal(m as nat) + " => "@ + static_path(psr4[k].1[m]) + ",\n"@,
        ),
        0 <= k < psr0.len() ==> has_infix(
            autoload_static(suffix, psr4, psr0, classes, files),
            "            '"@ + quoted_name(psr0[k].0) + "' =>\n            array (\n"@,
        ),
        0 <= k < psr0.len() && 0 <= m < psr0[k].1.len() ==> has_infix(
            autoload_static(suffix, psr4, psr0, classes, files),
            "                "@ + decimal(m as nat) + " => "@ + static_path(psr0[k].1[m])
                + ",\n"@,
        ),
{
    let whole = autoload_static(suffix, psr4, psr0, classes, files);
    let head = crate::autoload::files::STATIC_HEAD@ + suffix + "\n{\n"@;
    let f0 = head + "    public static $files = array (\n"@;
    let f1 = file_lines(f0, files, files.len() as int);
    let with_files = if files.len() == 0 {
        head
    } else {
        f1 + "    );\n\n"@
    };
    lemma_file_lines(f0, files, files.len() as int, k);
    lemma_parts(f1, "    );\n\n"@);
    let d = psr4.reverse();
    let l = letters_of(d, d.len() as int);
    let p0 = with_files + "    public static $prefixLengthsPsr4 = array (\n"@;
    let p1 = length_groups(p0, d, l, l.len() as int);
    let lengths = p1 + "    );\n\n"@;
    let p2 = lengths + "    public static $prefixDirsPsr4 = array (\n"@;
    let p3 = dir_lines(p2, d, d.len() as int);
    let with_psr4 = if psr4.len() == 0 {
        with_files
    } else {
        p3 + "    );\n\n"@
    };
    let at = psr4.len() - 1 - k;
    lemma_parts(with_files, "    public static $prefixLengthsPsr4 = array (\n"@);
    lemma_length_groups(p0, d, l, l.len() as int, at);
    lemma_parts(p1, "    );\n\n"@);
    lemma_parts(lengths, "    public static $prefixDirsPsr4 = array (\n"@);
    lemma_dir_lines(p2, d, d.len() as int, at, m);
    lemma_parts(p3, "    );\n\n"@);
    law_letters_cover_namespaces(d, d.len() as int);
    let e = psr0.reverse();
    let n = letters_of(e, e.len() as int);
    let q0 = with_psr4 + "    public static $prefixesPsr0 = array (\n"@;
    let q1 = prefix_groups(q0, e, n, n.len() as int);
    let with_psr0 = if psr0.len() == 0 {
        with_psr4
    } else {
        q1 + "    );\n\n"@
    };
    let bt = psr0.len() - 1 - k;
    lemma_parts(with_psr4, "    public static $prefixesPsr0 = array (\n"@);
    lemma_prefix_groups(q0, e, n, n.len() as int, bt, m);
    lemma_parts(q1, "    );\n\n"@);
    law_letters_cover_namespaces(e, e.len() as int);
    let c0 = with_psr0 + "    public static $classMap = array (\n"@;
    let c1 = class_lines(c0, classes, classes.len() as int);
    lemma_parts(with_psr0, "    public static $classMap = array (\n"@);
    lemma_class_lines(c0, classes, classes.len() as int, k);
    let with_classes = c1 + "    );\n\n"@;
    lemma_parts(c1, "    );\n\n"@);
    let init = crate::autoload::static_file::initializer(suffix, psr4.len() > 0, psr0.len() > 0);
    let i0 = with_classes + crate::autoload::files::INIT_HEAD@;
    lemma_parts(with_classes, crate::autoload::files::INIT_HEAD@);
    lemma_parts(i0, init);
    lemma_parts(i0 + init, crate::autoload::files::INIT_TAIL@);
    lemma_within(whole, i0 + init, i0);
    lemma_within(whole, i0, with_classes);
    lemma_within(whole, with_classes, c1);
    lemma_within(whole, c1, c0);
    lemma_within(whole, c0, with_psr0);
    if psr0.len() > 0 {
        lemma_within(whole, with_psr0, q1);
        lemma_within(whole, q1, q0);
        lemma_within(whole, q0, with_psr4);
    }
    if psr4.len() > 0 {
        lemma_within(whole, with_psr4, p3);
        lemma_within(whole, p3, p2);
        lemma_within(whole, p2, lengths);
        lemma_within(whole, lengths, p1);
        lemma_within(whole, p1, p0);
        lemma_within(whole, p0, with_files);
    }
    if 0 <= k < files.len() {
        lemma_within(whole, with_files, f1);
        lemma_within(
            whole,
            f1,
            "        '"@ + files[k].0 + "' => "@ + static_path(files[k].1) + ",\n"@,
        );
    }
    if 0 <= k < classes.len() {
        lemma_within(
            whole,
            c1,
            "        '"@ + quoted_name(classes[k].0) + "' => "@ + static_path(classes[k].1)
                + ",\n"@,
        );
    }
    if 0 <= k < psr4.len() {
        assert(d[at] == psr4[k]);
        assert(holds(l, initial(d[at].0)));
        let i = choose|i: int| 0 <= i < l.len() && l[i] == initial(d[at].0);
        assert(l[i] == initial(d[at].0));
        lemma_within(whole, p1, length_line(psr4[k].0));
        lemma_within(
            whole,
            p3,
            "        '"@ + quoted_name(psr4[k].0) + "' =>\n        array (\n"@,
        );
        if 0 <= m < psr4[k].1.len() {
            lemma_within(
                whole,
                p3,
                "            "@ + decimal(m as nat) + " => "@ + static_path(psr4[k].1[m])
                    + ",\n"@,
            );
        }
    }
    if 0 <= k < psr0.len() {
        assert(e[bt] == psr0[k]);
        assert(holds(n, initial(e[bt].0)));
        let i = choose|i: int| 0 <= i < n.len() && n[i] == initial(e[bt].0);
        assert(n[i] == initial(e[bt].0));
        lemma_within(
            whole,
            q1,
            "            '"@ + quoted_name(psr0[k].0) + "' =>\n            array (\n"@,
        );
        if 0 <= m < psr0[k].1.len() {
            lemma_within(
                whole,
                q1,
                "                "@ + decimal(m as nat) + " => "@ + static_path(psr0[k].1[m])
                    + ",\n"@,
            );
        }
    }
}

/// Every file of the loader is written to its place; the list of files is, where there are any.
pub proof fn law_every_file_is_written(
    config: AutoloadConfig,
    suffix: Seq<char>,
    known: CollectedView,
    classes: Pairs,
)
    ensures
        ({
            let w = loader_files(config, suffix, known, classes);
            let dir = joined_path(config.vendor_dir@, "composer"@);
            &&& w.contains((joined_path(config.vendor_dir@, "autoload.php"@), autoload_php(suffix)))
            &&& w.contains(
                (
                    joined_path(dir, "autoload_real.php"@),
                    autoload_real(
                        suffix,
                        config.apcu,
                        config.authoritative,
                        known.files.len() > 0,
                    ),
                ),
            )
            &&& w.contains(
                (
                    joined_path(dir, "autoload_static.php"@),
                    autoload_static(suffix, known.psr4, known.psr0, classes, known.files),
                ),
            )
            &&& w.contains((joined_path(dir, "autoload_psr4.php"@), autoload_psr4(known.psr4)))
            &&& w.contains(
                (joined_path(dir, "autoload_namespaces.php"@), autoload_namespaces(known.psr0)),
            )
            &&& w.contains((joined_path(dir, "autoload_classmap.php"@), autoload_classmap(classes)))
            &&& known.files.len() > 0 ==> w.contains(
                (joined_path(dir, "autoload_files.php"@), autoload_files(known.files)),
            )
            &&& w.contains((joined_path(dir, "platform_check.php"@), platform_check()))
            &&& w.len() == if known.files.len() > 0 {
                8int
            } else {
                7
            }
        }),
{
    let w = loader_files(config, suffix, known, classes);
    assert(w.contains(w[0]) && w.contains(w[1]) && w.contains(w[2]) && w.contains(w[3])
        && w.contains(w[4]) && w.contains(w[5]) && w.contains(w[6]));
    if known.files.len() > 0 {
        assert(w.contains(w[7]));
    }
}

/// The loader that is set up goes by what was asked for: it has a prefix for the cache with APCu,
/// looks nowhere but in the class map where that is to decide, and loads files where there are
/// any.
pub proof fn law_loader_is_set_up_as_asked(
    suffix: Seq<char>,
    apcu: bool,
    authoritative: bool,
    has_files: bool,
)
    ensures
        apcu ==> has_infix(
            autoload_real(suffix, apcu, authoritative, has_files),
            "        $loader->setApcuPrefix('ComposerAutoloader"@ + suffix + "');\n"@,
        ),
        authoritative ==> has_infix(
            autoload_real(suffix, apcu, authoritative, has_files),
            "        $loader->setClassMapAuthoritative(true);\n"@,
        ),
        has_files ==> has_infix(
            autoload_real(suffix, apcu, authoritative, has_files),
            crate::autoload::files::FILES_HEAD@ + suffix + crate::autoload::files::FILES_TAIL@,
        ),
{
    let whole = autoload_real(suffix, apcu, authoritative, has_files);
    let base = crate::autoload::files::REAL_HEAD@ + suffix + crate::autoload::files::REAL_CLASS@
        + suffix + crate::autoload::files::REAL_UNREGISTER@ + suffix
        + crate::autoload::files::REAL_STATIC@ + suffix + crate::autoload::files::REAL_REGISTER@;
    let a = if apcu {
        "        $loader->setApcuPrefix('ComposerAutoloader"@ + suffix + "');\n"@
    } else {
        ""@
    };
    let b = if authoritative {
        "        $loader->setClassMapAuthoritative(true);\n"@
    } else {
        ""@
    };
    let c = if has_files {
        crate::autoload::files::FILES_HEAD@ + suffix + crate::autoload::files::FILES_TAIL@
    } else {
        ""@
    };
    let tail = crate::autoload::files::REAL_TAIL@;
    assert(whole == base + a + b + c + tail);
    lemma_parts(base, a);
    lemma_parts(base + a, b);
    lemma_parts(base + a + b, c);
    lemma_parts(base + a + b + c, tail);
    lemma_within(whole, base + a + b + c, c);
    lemma_within(whole, base + a + b + c, base + a + b);
    lemma_within(whole, base + a + b, b);
    lemma_within(whole, base + a + b, base + a);
    lemma_within(whole, base + a, a);
}

} // verus!
