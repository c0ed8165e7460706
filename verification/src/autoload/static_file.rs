//! `vendor/composer/autoload_static.php`: everything the loader needs as static data.
use vstd::prelude::*;
use vstd::string::*;
use vstd::utf8::encode_utf8;

use crate::autoload::code::{static_path, to_static_path};
use crate::autoload::collect::{directories, Directories};
use crate::autoload::files::{quote_name, quoted_name, INIT_HEAD, INIT_TAIL, STATIC_HEAD};
use crate::links::Pairs;
use crate::sort::pairs;
use crate::text::{decimal, number, views};

verus! {

// ---------------------------------------------------------------------------
// Groups of namespaces
// ---------------------------------------------------------------------------
/// The letter under which a namespace is filed.
pub open spec fn initial(name: Seq<char>) -> char {
    if name.len() == 0 {
        '_'
    } else {
        name[0]
    }
}

/// The letters with one more, the greatest first, each once.
pub open spec fn with_letter(letters: Seq<char>, c: char) -> Seq<char>
    decreases letters.len(),
{
    if letters.len() == 0 || letters[0] < c {
        seq![c] + letters
    } else if letters[0] == c {
        letters
    } else {
        seq![letters[0]] + with_letter(letters.drop_first(), c)
    }
}

/// The letters of the first `n` namespaces.
pub open spec fn letters_of(d: Directories, n: int) -> Seq<char>
    decreases n,
{
    if n <= 0 || n > d.len() {
        Seq::empty()
    } else {
        with_letter(letters_of(d, n - 1), initial(d[n - 1].0))
    }
}

/// The letters stand from the greatest to the least, each once.
pub open spec fn descending(letters: Seq<char>) -> bool {
    forall|i: int, j: int| 0 <= i < j < letters.len() ==> #[trigger] letters[j] < #[trigger] letters[i]
}

/// The letter is among the letters.
pub open spec fn holds(letters: Seq<char>, x: char) -> bool {
    exists|i: int| 0 <= i < letters.len() && letters[i] == x
}

proof fn lemma_with_letter(letters: Seq<char>, c: char)
    requires
        descending(letters),
    ensures
        descending(with_letter(letters, c)),
        forall|x: char| #[trigger]
            holds(with_letter(letters, c), x) <==> x == c || holds(letters, x),
    decreases letters.len(),
{
    let r = with_letter(letters, c);
    if letters.len() == 0 || letters[0] < c {
        assert forall|x: char| holds(r, x) <==> x == c || holds(letters, x) by {
            if holds(letters, x) {
                let i = choose|i: int| 0 <= i < letters.len() && letters[i] == x;
                assert(r[i + 1] == x);
            }
            if x == c {
                assert(r[0] == x);
            }
        }
        assert forall|i: int, j: int| 0 <= i < j < r.len() implies #[trigger] r[j]
            < #[trigger] r[i] by {
            assert(r[j] == letters[j - 1]);
            if i > 0 {
                assert(r[i] == letters[i - 1]);
            } else if j > 1 {
                assert(letters[j - 1] < letters[0]);
            }
        }
    } else if letters[0] == c {
        assert(holds(letters, c));
    } else {
        let rest = letters.drop_first();
        lemma_with_letter(rest, c);
        let t = with_letter(rest, c);
        assert forall|x: char| holds(r, x) <==> x == c || holds(letters, x) by {
            if holds(r, x) {
                let i = choose|i: int| 0 <= i < r.len() && r[i] == x;
                if i > 0 {
                    assert(t[i - 1] == x);
                    assert(holds(t, x));
                    if x != c {
                        let k = choose|k: int| 0 <= k < rest.len() && rest[k] == x;
                        assert(letters[k + 1] == x);
                    }
                }
            }
            if holds(t, x) {
                let i = choose|i: int| 0 <= i < t.len() && t[i] == x;
                assert(r[i + 1] == x);
            }
            if holds(letters, x) {
                let k = choose|k: int| 0 <= k < letters.len() && letters[k] == x;
                if k == 0 {
                    assert(r[0] == x);
                } else {
                    assert(rest[k - 1] == x);
                    assert(holds(t, x));
                }
            }
        }
        assert forall|i: int, j: int| 0 <= i < j < r.len() implies #[trigger] r[j]
            < #[trigger] r[i] by {
            assert(r[j] == t[j - 1]);
            if i > 0 {
                assert(r[i] == t[i - 1]);
            } else {
                assert(holds(t, r[j]));
                if r[j] != c {
                    let k = choose|k: int| 0 <= k < rest.len() && rest[k] == r[j];
                    assert(letters[k + 1] == r[j]);
                }
            }
        }
    }
}

/// Every namespace is filed under exactly one letter, and the letters stand from the
/// greatest to the least.
pub proof fn law_letters_cover_namespaces(d: Directories, n: int)
    requires
        0 <= n <= d.len(),
    ensures
        descending(letters_of(d, n)),
        forall|i: int| 0 <= i < n ==> holds(letters_of(d, n), initial((#[trigger] d[i]).0)),
    decreases n,
{
    if n > 0 {
        law_letters_cover_namespaces(d, n - 1);
        lemma_with_letter(letters_of(d, n - 1), initial(d[n - 1].0));
    }
}

fn add_letter(letters: &mut Vec<char>, c: char)
    ensures
        final(letters)@ == with_letter(old(letters)@, c),
{
    let ghost l = letters@;
    let mut at: usize = 0;
    assert(l.skip(0) =~= l);
    assert(l.take(0) + with_letter(l.skip(0), c) =~= with_letter(l, c));
    while at < letters.len() && c < letters[at]
        invariant
            at <= letters.len(),
            l == letters@,
            l.take(at as int) + with_letter(l.skip(at as int), c) == with_letter(l, c),
        decreases letters.len() - at,
    {
        proof {
            let rest = l.skip(at as int);
            assert(rest[0] == l[at as int]);
            assert(rest.drop_first() =~= l.skip(at + 1));
            assert(l.take(at + 1) + with_letter(l.skip(at + 1), c) =~= l.take(at as int) + (
            seq![rest[0]] + with_letter(l.skip(at + 1), c)));
        }
        at += 1;
    }
    proof {
        if at < letters.len() {
            assert(l.skip(at as int)[0] == l[at as int]);
        }
    }
    if at < letters.len() && letters[at] == c {
        assert(l.take(at as int) + l.skip(at as int) =~= l);
    } else {
        letters.insert(at, c);
        assert(letters@ =~= l.take(at as int) + (seq![c] + l.skip(at as int)));
    }
}

fn initial_of(name: &str) -> (r: char)
    ensures
        r == initial(name@),
{
    if name.is_empty() {
        '_'
    } else {
        name.get_char(0)
    }
}

fn letters(v: &Vec<(String, Vec<String>)>) -> (r: Vec<char>)
    ensures
        r@ == letters_of(directories(v@).reverse(), v@.len() as int),
{
    let ghost d = directories(v@).reverse();
    let mut out: Vec<char> = Vec::new();
    let mut i: usize = 0;
    assert(out@ =~= letters_of(d, 0));
    while i < v.len()
        invariant
            i <= v.len(),
            d == directories(v@).reverse(),
            out@ == letters_of(d, i as int),
        decreases v.len() - i,
    {
        let e = &v[v.len() - 1 - i];
        assert(d[i as int].0 == e.0@);
        add_letter(&mut out, initial_of(e.0.as_str()));
        i += 1;
    }
    out
}

// ---------------------------------------------------------------------------
// The sections of the file
// ---------------------------------------------------------------------------
/// The text followed by the files.
pub open spec fn file_lines(out: Seq<char>, files: Pairs, n: int) -> Seq<char>
    decreases n,
{
    if n <= 0 || n > files.len() {
        out
    } else {
        file_lines(out, files, n - 1) + "        '"@ + files[n - 1].0 + "' => "@ + static_path(
            files[n - 1].1,
        ) + ",\n"@
    }
}

/// The text followed by the lengths of the namespaces filed under a letter.
pub open spec fn length_lines(out: Seq<char>, d: Directories, n: int, c: char) -> Seq<char>
    decreases n,
{
    if n <= 0 || n > d.len() {
        out
    } else {
        let t = length_lines(out, d, n - 1, c);
        let name = d[n - 1].0;
        if initial(name) == c {
            t + "            '"@ + quoted_name(name) + "' => "@ + decimal(
                (encode_utf8(name).len() as usize) as nat,
            ) + ",\n"@
        } else {
            t
        }
    }
}

/// The text followed by the lengths of all namespaces, letter by letter.
pub open spec fn length_groups(out: Seq<char>, d: Directories, letters: Seq<char>, n: int) -> Seq<
    char,
>
    decreases n,
{
    if n <= 0 || n > letters.len() {
        out
    } else {
        let head = (length_groups(out, d, letters, n - 1) + "        '"@).push(letters[n - 1])
            + "' =>\n        array (\n"@;
        length_lines(head, d, d.len() as int, letters[n - 1]) + "        ),\n"@
    }
}

/// The text followed by numbered directories.
pub open spec fn numbered_dirs(out: Seq<char>, dirs: Seq<Seq<char>>, n: int, indent: Seq<char>)
    -> Seq<char>
    decreases n,
{
    if n <= 0 || n > dirs.len() {
        out
    } else {
        numbered_dirs(out, dirs, n - 1, indent) + indent + decimal((n - 1) as nat) + " => "@
            + static_path(dirs[n - 1]) + ",\n"@
    }
}

/// The text followed by the directories of the namespaces.
pub open spec fn dir_lines(out: Seq<char>, d: Directories, n: int) -> Seq<char>
    decreases n,
{
    if n <= 0 || n > d.len() {
        out
    } else {
        let head = dir_lines(out, d, n - 1) + "        '"@ + quoted_name(d[n - 1].0)
            + "' =>\n        array (\n"@;
        numbered_dirs(head, d[n - 1].1, d[n - 1].1.len() as int, "            "@)
            + "        ),\n"@
    }
}

/// The text followed by the namespaces filed under a letter, with their directories.
pub open spec fn prefix_lines(out: Seq<char>, d: Directories, n: int, c: char) -> Seq<char>
    decreases n,
{
    if n <= 0 || n > d.len() {
        out
    } else {
        let t = prefix_lines(out, d, n - 1, c);
        if initial(d[n - 1].0) == c {
            let head = t + "            '"@ + quoted_name(d[n - 1].0)
                + "' =>\n            array (\n"@;
            numbered_dirs(head, d[n - 1].1, d[n - 1].1.len() as int, "                "@)
                + "            ),\n"@
        } else {
            t
        }
    }
}

/// The text followed by all namespaces with their directories, letter by letter.
pub open spec fn prefix_groups(out: Seq<char>, d: Directories, letters: Seq<char>, n: int) -> Seq<
    char,
>
    decreases n,
{
    if n <= 0 || n > letters.len() {
        out
    } else {
        let head = (prefix_groups(out, d, letters, n - 1) + "        '"@).push(letters[n - 1])
            + "' =>\n        array (\n"@;
        prefix_lines(head, d, d.len() as int, letters[n - 1]) + "        ),\n"@
    }
}

/// The text followed by the classes.
pub open spec fn class_lines(out: Seq<char>, classes: Pairs, n: int) -> Seq<char>
    decreases n,
{
    if n <= 0 || n > classes.len() {
        out
    } else {
        class_lines(out, classes, n - 1) + "        '"@ + quoted_name(classes[n - 1].0)
            + "' => "@ + static_path(classes[n - 1].1) + ",\n"@
    }
}

/// The whole file. Namespaces stand in it from the last to the first.
pub open spec fn autoload_static(
    suffix: Seq<char>,
    psr4: Directories,
    psr0: Directories,
    classes: Pairs,
    files: Pairs,
) -> Seq<char> {
    let head = STATIC_HEAD@ + suffix + "\n{\n"@;
    let with_files = if files.len() == 0 {
        head
    } else {
        file_lines(
            head + "    public static $files = array (\n"@,
            files,
            files.len() as int,
        ) + "    );\n\n"@
    };
    let d = psr4.reverse();
    let l = letters_of(d, d.len() as int);
    let with_psr4 = if psr4.len() == 0 {
        with_files
    } else {
        let lengths = length_groups(
            with_files + "    public static $prefixLengthsPsr4 = array (\n"@,
            d,
            l,
            l.len() as int,
        ) + "    );\n\n"@;
        dir_lines(
            lengths + "    public static $prefixDirsPsr4 = array (\n"@,
            d,
            d.len() as int,
        ) + "    );\n\n"@
    };
    let e = psr0.reverse();
    let m = letters_of(e, e.len() as int);
    let with_psr0 = if psr0.len() == 0 {
        with_psr4
    } else {
        prefix_groups(
            with_psr4 + "    public static $prefixesPsr0 = array (\n"@,
            e,
            m,
            m.len() as int,
        ) + "    );\n\n"@
    };
    let with_classes = class_lines(
        with_psr0 + "    public static $classMap = array (\n"@,
        classes,
        classes.len() as int,
    ) + "    );\n\n"@;
    with_classes + INIT_HEAD@ + initializer(suffix, psr4.len() > 0, psr0.len() > 0) + INIT_TAIL@
}

/// The statements that hand the data to the loader.
pub open spec fn initializer(suffix: Seq<char>, has_psr4: bool, has_psr0: bool) -> Seq<char> {
    let a = if has_psr4 {
        ""@ + "            $loader->prefixLengthsPsr4 = ComposerStaticInit"@ + suffix
            + "::$prefixLengthsPsr4;\n"@ + "            $loader->prefixDirsPsr4 = ComposerStaticInit"@
            + suffix + "::$prefixDirsPsr4;\n"@
    } else {
        ""@
    };
    let b = if has_psr0 {
        a + "            $loader->prefixesPsr0 = ComposerStaticInit"@ + suffix
            + "::$prefixesPsr0;\n"@
    } else {
        a
    };
    b + "            $loader->classMap = ComposerStaticInit"@ + suffix + "::$classMap;\n"@
}

fn write_lengths(out: &mut String, v: &Vec<(String, Vec<String>)>, c: char)
    ensures
        final(out)@ == length_lines(
            old(out)@,
            directories(v@).reverse(),
            v@.len() as int,
            c,
        ),
{
    let ghost start = out@;
    let ghost d = directories(v@).reverse();
    let mut i: usize = 0;
    while i < v.len()
        invariant
            i <= v.len(),
            d == directories(v@).reverse(),
            out@ == length_lines(start, d, i as int, c),
        decreases v.len() - i,
    {
        let name = v[v.len() - 1 - i].0.as_str();
        assert(d[i as int].0 == name@);
        if initial_of(name) == c {
            out.append("            '");
            out.append(quote_name(name).as_str());
            out.append("' => ");
            out.append(number(name.len() as u64).as_str());
            out.append(",\n");
        }
        i += 1;
    }
}

fn write_length_groups(out: &mut String, v: &Vec<(String, Vec<String>)>)
    ensures
        ({
            let d = directories(v@).reverse();
            let l = letters_of(d, d.len() as int);
            final(out)@ == length_groups(old(out)@, d, l, l.len() as int)
        }),
{
    let ghost start = out@;
    let ghost d = directories(v@).reverse();
    let groups = letters(v);
    let mut i: usize = 0;
    while i < groups.len()
        invariant
            i <= groups.len(),
            d == directories(v@).reverse(),
            out@ == length_groups(start, d, groups@, i as int),
        decreases groups.len() - i,
    {
        out.append("        '");
        out.push(groups[i]);
        out.append("' =>\n        array (\n");
        write_lengths(out, v, groups[i]);
        out.append("        ),\n");
        i += 1;
    }
}

fn write_dirs(out: &mut String, dirs: &Vec<String>, indent: &str)
    ensures
        final(out)@ == numbered_dirs(old(out)@, views(dirs@), dirs@.len() as int, indent@),
{
    let ghost start = out@;
    let ghost all = views(dirs@);
    let mut i: usize = 0;
    while i < dirs.len()
        invariant
            i <= dirs.len(),
            all == views(dirs@),
            out@ == numbered_dirs(start, all, i as int, indent@),
        decreases dirs.len() - i,
    {
        assert(all[i as int] == dirs@[i as int]@);
        out.append(indent);
        out.append(number(i as u64).as_str());
        out.append(" => ");
        out.append(to_static_path(dirs[i].as_str()).as_str());
        out.append(",\n");
        i += 1;
    }
}

fn write_dir_lines(out: &mut String, v: &Vec<(String, Vec<String>)>)
    ensures
        final(out)@ == dir_lines(old(out)@, directories(v@).reverse(), v@.len() as int),
{
    let ghost start = out@;
    let ghost d = directories(v@).reverse();
    let mut i: usize = 0;
    while i < v.len()
        invariant
            i <= v.len(),
            d == directories(v@).reverse(),
            out@ == dir_lines(start, d, i as int),
        decreases v.len() - i,
    {
        let e = &v[v.len() - 1 - i];
        assert(d[i as int] == (e.0@, views(e.1@)));
        out.append("        '");
        out.append(quote_name(e.0.as_str()).as_str());
        out.append("' =>\n        array (\n");
        assert(views(e.1@).len() == e.1@.len());
        write_dirs(out, &e.1, "            ");
        out.append("        ),\n");
        i += 1;
    }
}

fn write_prefixes(out: &mut String, v: &Vec<(String, Vec<String>)>, c: char)
    ensures
        final(out)@ == prefix_lines(
            old(out)@,
            directories(v@).reverse(),
            v@.len() as int,
            c,
        ),
{
    let ghost start = out@;
    let ghost d = directories(v@).reverse();
    let mut i: usize = 0;
    while i < v.len()
        invariant
            i <= v.len(),
            d == directories(v@).reverse(),
            out@ == prefix_lines(start, d, i as int, c),
        decreases v.len() - i,
    {
        let e = &v[v.len() - 1 - i];
        assert(d[i as int] == (e.0@, views(e.1@)));
        if initial_of(e.0.as_str()) == c {
            out.append("            '");
            out.append(quote_name(e.0.as_str()).as_str());
            out.append("' =>\n            array (\n");
            assert(views(e.1@).len() == e.1@.len());
            write_dirs(out, &e.1, "                ");
            out.append("            ),\n");
        }
        i += 1;
    }
}

fn write_prefix_groups(out: &mut String, v: &Vec<(String, Vec<String>)>)
    ensures
        ({
            let d = directories(v@).reverse();
            let l = letters_of(d, d.len() as int);
            final(out)@ == prefix_groups(old(out)@, d, l, l.len() as int)
        }),
{
    let ghost start = out@;
    let ghost d = directories(v@).reverse();
    let groups = letters(v);
    let mut i: usize = 0;
    while i < groups.len()
        invariant
            i <= groups.len(),
            d == directories(v@).reverse(),
            out@ == prefix_groups(start, d, groups@, i as int),
        decreases groups.len() - i,
    {
        out.append("        '");
        out.push(groups[i]);
        out.append("' =>\n        array (\n");
        write_prefixes(out, v, groups[i]);
        out.append("        ),\n");
        i += 1;
    }
}

fn write_initializer(suffix: &str, has_psr4: bool, has_psr0: bool) -> (r: String)
    ensures
        r@ == initializer(suffix@, has_psr4, has_psr0),
{
    let mut out = "".to_owned();
    if has_psr4 {
        out.append("            $loader->prefixLengthsPsr4 = ComposerStaticInit");
        out.append(suffix);
        out.append("::$prefixLengthsPsr4;\n");
        out.append("            $loader->prefixDirsPsr4 = ComposerStaticInit");
        out.append(suffix);
        out.append("::$prefixDirsPsr4;\n");
    }
    if has_psr0 {
        out.append("            $loader->prefixesPsr0 = ComposerStaticInit");
        out.append(suffix);
        out.append("::$prefixesPsr0;\n");
    }
    out.append("            $loader->classMap = ComposerStaticInit");
    out.append(suffix);
    out.append("::$classMap;\n");
    out
}

/// `vendor/composer/autoload_static.php`.
pub fn generate_autoload_static(
    suffix: &str,
    psr4: &Vec<(String, Vec<String>)>,
    psr0: &Vec<(String, Vec<String>)>,
    classmap: &Vec<(String, String)>,
    files: &Vec<(String, String)>,
) -> (r: String)
    ensures
        r@ == autoload_static(
            suffix@,
            directories(psr4@),
            directories(psr0@),
            pairs(classmap@),
            pairs(files@),
        ),
{
    let mut out = STATIC_HEAD.to_owned();
    out.append(suffix);
    out.append("\n{\n");
    if files.len() > 0 {
        out.append("    public static $files = array (\n");
        let ghost start = out@;
        let ghost all = pairs(files@);
        let mut i: usize = 0;
        while i < files.len()
            invariant
                i <= files.len(),
                all == pairs(files@),
                out@ == file_lines(start, all, i as int),
            decreases files.len() - i,
        {
            assert(all[i as int] == (files@[i as int].0@, files@[i as int].1@));
            out.append("        '");
            out.append(files[i].0.as_str());
            out.append("' => ");
            out.append(to_static_path(files[i].1.as_str()).as_str());
            out.append(",\n");
            i += 1;
        }
        out.append("    );\n\n");
    }
    if psr4.len() > 0 {
        out.append("    public static $prefixLengthsPsr4 = array (\n");
        write_length_groups(&mut out, psr4);
        out.append("    );\n\n");
        out.append("    public static $prefixDirsPsr4 = array (\n");
        write_dir_lines(&mut out, psr4);
        out.append("    );\n\n");
    }
    if psr0.len() > 0 {
        out.append("    public static $prefixesPsr0 = array (\n");
        write_prefix_groups(&mut out, psr0);
        out.append("    );\n\n");
    }
    out.append("    public static $classMap = array (\n");
    let ghost start = out@;
    let ghost all = pairs(classmap@);
    let mut i: usize = 0;
    while i < classmap.len()
        invariant
            i <= classmap.len(),
            all == pairs(classmap@),
            out@ == class_lines(start, all, i as int),
        decreases classmap.len() - i,
    {
        assert(all[i as int] == (classmap@[i as int].0@, classmap@[i as int].1@));
        out.append("        '");
        out.append(quote_name(classmap[i].0.as_str()).as_str());
        out.append("' => ");
        out.append(to_static_path(classmap[i].1.as_str()).as_str());
        out.append(",\n");
        i += 1;
    }
    out.append("    );\n\n");
    out.append(INIT_HEAD);
    out.append(write_initializer(suffix, psr4.len() > 0, psr0.len() > 0).as_str());
    out.append(INIT_TAIL);
    out
}

} // verus!
