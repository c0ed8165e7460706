//! What holds of the classes that are found, and of the files they are found in.
use vstd::prelude::*;

use crate::autoload::classes::{all_qualified, php_file, qualified_names};
use crate::autoload::code::{
    escaped, excluded, file_code, meta, regex_match, wildcard_regex, Roots,
};
use crate::holding::lemma_one_more;
use crate::path_laws::law_extension_stands_behind_the_dot;
use crate::paths::below;
use crate::text::{after, ascii_lower, has_prefix, replaced};

verus! {

/// A class by its full name: within the namespace of its file, where the file declares one.
pub open spec fn full_name(namespaces: Seq<Option<Seq<char>>>, name: Seq<char>) -> Seq<char> {
    if namespaces.len() > 0 && namespaces[0] is Some {
        namespaces[0]->0 + "\\"@ + name
    } else {
        name
    }
}

proof fn lemma_names(
    namespaces: Seq<Option<Seq<char>>>,
    names: Seq<Option<Seq<char>>>,
    n: int,
    x: Seq<char>,
)
    requires
        0 <= n <= names.len(),
    ensures
        qualified_names(namespaces, names, n).contains(x) <==> exists|i: int|
            0 <= i < n && (#[trigger] names[i] matches Some(name) && x == full_name(
                namespaces,
                name,
            )),
    decreases n,
{
    if n > 0 {
        lemma_names(namespaces, names, n - 1, x);
        if let Some(name) = names[n - 1] {
            lemma_one_more(
                qualified_names(namespaces, names, n - 1),
                full_name(namespaces, name),
                x,
            );
        }
    }
}

/// Every class of a file is found, under its full name, and nothing else is.
pub proof fn law_every_class_has_its_full_name(
    namespaces: Seq<Option<Seq<char>>>,
    names: Seq<Option<Seq<char>>>,
    x: Seq<char>,
)
    ensures
        all_qualified(namespaces, names).contains(x) <==> exists|i: int|
            0 <= i < names.len() && (#[trigger] names[i] matches Some(name) && x == full_name(
                namespaces,
                name,
            )),
{
    lemma_names(namespaces, names, names.len() as int, x);
}

/// A file is one of PHP by its ending, whatever the case of the letters.
pub proof fn law_php_files_have_their_ending(stem: Seq<char>, end: Seq<char>)
    requires
        stem.len() > 0,
        end.len() > 0,
        !stem.contains('/'),
        !end.contains('/'),
        !end.contains('.'),
    ensures
        php_file(stem + seq!['.'] + end) <==> ascii_lower(end) == "php"@,
{
    law_extension_stands_behind_the_dot(stem, end);
}

/// A file is left out exactly where one of the patterns matches it, and more patterns leave out no
/// fewer files.
pub proof fn law_every_pattern_leaves_out(
    path: Seq<char>,
    patterns: Seq<Seq<char>>,
    more: Seq<Seq<char>>,
    i: int,
)
    ensures
        0 <= i < patterns.len() && regex_match(patterns[i], replaced(path, "\\"@, "/"@)) == Some(true)
            ==> excluded(path, patterns),
        excluded(path, patterns) ==> excluded(path, patterns + more),
        excluded(path, more) ==> excluded(path, patterns + more),
        patterns.len() == 0 ==> !excluded(path, patterns),
{
    let all = patterns + more;
    if excluded(path, patterns) {
        let k = choose|k: int|
            0 <= k < patterns.len() && regex_match(
                #[trigger] patterns[k],
                replaced(path, "\\"@, "/"@),
            ) == Some(true);
        assert(all[k] == patterns[k]);
    }
    if excluded(path, more) {
        let k = choose|k: int|
            0 <= k < more.len() && regex_match(#[trigger] more[k], replaced(path, "\\"@, "/"@))
                == Some(true);
        assert(all[patterns.len() + k] == more[k]);
    }
}

/// A file below the vendor directory is written from there, and one below the project alone from
/// there; where it really is comes before how it was reached.
pub proof fn law_files_are_written_from_their_directory(
    path: Seq<char>,
    resolved: Option<Seq<char>>,
    roots: Roots,
)
    ensures
        resolved is Some ==> (below(resolved->0, roots.real_vendor_dir@) matches Some(rel)
            ==> file_code(path, resolved, roots) == "$vendorDir . '/"@ + rel + "'"@),
        resolved is Some && below(resolved->0, roots.real_vendor_dir@) is None ==> (below(
            resolved->0,
            roots.real_base_dir@,
        ) matches Some(rel) ==> file_code(path, resolved, roots) == "$baseDir . '/"@ + rel + "'"@),
        resolved is None ==> (below(path, roots.vendor_dir@) matches Some(rel) ==> file_code(
            path,
            resolved,
            roots,
        ) == "$vendorDir . '/"@ + rel + "'"@),
        resolved is None && below(path, roots.vendor_dir@) is None ==> (below(
            path,
            roots.base_dir@,
        ) matches Some(rel) ==> file_code(path, resolved, roots) == "$baseDir . '/"@ + rel + "'"@),
{
}

/// The text has no character that means something in a regular expression.
pub open spec fn is_literal(s: Seq<char>) -> bool {
    forall|i: int| 0 <= i < s.len() ==> !meta(#[trigger] s[i])
}

proof fn lemma_escaped_literal(a: Seq<char>, s: Seq<char>)
    requires
        is_literal(s),
    ensures
        escaped(a + s) == escaped(a) + s,
    decreases s.len(),
{
    if s.len() > 0 {
        let t = s.drop_last();
        assert(s.last() == s[s.len() - 1]);
        assert forall|i: int| 0 <= i < t.len() implies !meta(#[trigger] t[i]) by {
            assert(t[i] == s[i]);
        }
        lemma_escaped_literal(a, t);
        assert((a + s).drop_last() =~= a + t);
        assert(escaped(a + s) =~= escaped(a) + s);
    } else {
        assert(a + s =~= a);
        assert(escaped(a) + s =~= escaped(a));
    }
}

proof fn lemma_escaped_star(a: Seq<char>)
    ensures
        escaped(a.push('*')) == escaped(a) + seq!['\\', '*'],
{
    assert(a.push('*').drop_last() =~= a);
    assert(escaped(a.push('*')) =~= escaped(a) + seq!['\\', '*']);
}

proof fn lemma_replaced_behind(a: Seq<char>, s: Seq<char>, from: Seq<char>, to: Seq<char>)
    requires
        is_literal(a),
        from.len() > 0,
        from[0] == '\\',
    ensures
        replaced(a + s, from, to) == a + replaced(s, from, to),
    decreases a.len(),
{
    let t = a + s;
    if a.len() > 0 {
        assert(!meta(a[0]));
        assert(t[0] == a[0]);
        if has_prefix(t, from) {
            assert(t.subrange(0, from.len() as int)[0] == t[0]);
        }
        let rest = a.drop_first();
        assert forall|i: int| 0 <= i < rest.len() implies !meta(#[trigger] rest[i]) by {
            assert(rest[i] == a[i + 1]);
        }
        lemma_replaced_behind(rest, s, from, to);
        assert(after(t, 1) =~= rest + s);
        assert(seq![a[0]] + (rest + replaced(s, from, to)) =~= a + replaced(s, from, to));
    } else {
        assert(t =~= s);
        assert(a + replaced(s, from, to) =~= replaced(s, from, to));
    }
}

proof fn lemma_replaced_literal(a: Seq<char>, from: Seq<char>, to: Seq<char>)
    requires
        is_literal(a),
        from.len() > 0,
        from[0] == '\\',
    ensures
        replaced(a, from, to) == a,
{
    lemma_replaced_behind(a, Seq::empty(), from, to);
    assert(a + Seq::<char>::empty() =~= a);
    assert(replaced(Seq::empty(), from, to) =~= Seq::empty());
}

/// A pattern without wildcards stands for itself, a star in it for anything within one name.
pub proof fn law_star_stays_within_a_name(a: Seq<char>, b: Seq<char>)
    requires
        is_literal(a),
        is_literal(b),
    ensures
        wildcard_regex(a) == a,
        wildcard_regex(a + seq!['*'] + b) == a + "[^/]*"@ + b,
{
    reveal_strlit("\\*\\*");
    reveal_strlit("\\*");
    reveal_strlit("[^/]*");
    let two = "\\*\\*"@;
    let one = "\\*"@;
    assert(two =~= seq!['\\', '*', '\\', '*']);
    assert(one =~= seq!['\\', '*']);
    let none = Seq::<char>::empty();
    lemma_escaped_literal(none, a);
    assert(none + a =~= a);
    assert(escaped(a) =~= a);
    lemma_replaced_literal(a, two, ".*"@);
    lemma_replaced_literal(a, one, "[^/]*"@);
    let star = a.push('*');
    assert(star =~= a + seq!['*']);
    lemma_escaped_star(a);
    lemma_escaped_literal(star, b);
    let e = escaped(star + b);
    assert(e =~= a + (one + b));
    lemma_replaced_behind(a, one + b, two, ".*"@);
    lemma_replaced_star(b);
    assert(replaced(e, two, ".*"@) == a + (one + b));
    lemma_replaced_behind(a, one + b, one, "[^/]*"@);
    assert(has_prefix(one + b, one)) by {
        assert((one + b).subrange(0, 2) =~= one);
    }
    assert(after(one + b, 2) =~= b);
    lemma_replaced_literal(b, one, "[^/]*"@);
    assert(a + ("[^/]*"@ + b) =~= a + "[^/]*"@ + b);
}

proof fn lemma_replaced_star(b: Seq<char>)
    requires
        is_literal(b),
    ensures
        replaced(seq!['\\', '*'] + b, seq!['\\', '*', '\\', '*'], ".*"@) == seq!['\\', '*'] + b,
{
    let two = seq!['\\', '*', '\\', '*'];
    let t = seq!['\\', '*'] + b;
    if has_prefix(t, two) {
        assert(t.subrange(0, 4)[2] == '\\');
        assert(t[2] == b[0]);
        assert(!meta(b[0]));
    }
    let u = after(t, 1);
    assert(u =~= seq!['*'] + b);
    if has_prefix(u, two) {
        assert(u.subrange(0, 4)[0] == '\\');
    }
    assert(after(u, 1) =~= b);
    lemma_replaced_literal(b, two, ".*"@);
    assert(replaced(u, two, ".*"@) =~= u);
    assert(replaced(t, two, ".*"@) =~= t);
}

/// Two stars in a pattern stand for anything at all.
pub proof fn law_two_stars_stand_for_anything(a: Seq<char>, b: Seq<char>)
    requires
        is_literal(a),
        is_literal(b),
    ensures
        wildcard_regex(a + seq!['*', '*'] + b) == a + ".*"@ + b,
{
    reveal_strlit("\\*\\*");
    reveal_strlit("\\*");
    reveal_strlit(".*");
    let two = "\\*\\*"@;
    let one = "\\*"@;
    assert(two =~= seq!['\\', '*', '\\', '*']);
    assert(one =~= seq!['\\', '*']);
    let none = Seq::<char>::empty();
    lemma_escaped_literal(none, a);
    assert(none + a =~= a);
    assert(escaped(a) =~= a);
    let star = a.push('*');
    let stars = star.push('*');
    assert(stars =~= a + seq!['*', '*']);
    lemma_escaped_star(a);
    lemma_escaped_star(star);
    lemma_escaped_literal(stars, b);
    let e = escaped(stars + b);
    assert(e =~= a + (two + b));
    lemma_replaced_behind(a, two + b, two, ".*"@);
    assert(has_prefix(two + b, two)) by {
        assert((two + b).subrange(0, 4) =~= two);
    }
    assert(after(two + b, 4) =~= b);
    lemma_replaced_literal(b, two, ".*"@);
    let r = replaced(e, two, ".*"@);
    assert(r == a + (".*"@ + b));
    lemma_replaced_behind(a, ".*"@ + b, one, "[^/]*"@);
    let t = ".*"@ + b;
    let u = after(t, 1);
    if has_prefix(t, one) {
        assert(t.subrange(0, 2)[0] == '.');
    }
    assert(u =~= seq!['*'] + b);
    if has_prefix(u, one) {
        assert(u.subrange(0, 2)[0] == '*');
    }
    assert(after(u, 1) =~= b);
    lemma_replaced_literal(b, one, "[^/]*"@);
    assert(replaced(u, one, "[^/]*"@) =~= u);
    assert(replaced(t, one, "[^/]*"@) =~= t);
    assert(a + (".*"@ + b) =~= a + ".*"@ + b);
}

} // verus!
