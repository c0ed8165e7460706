//! What holds of the list of settings: every setting has its line in it.
use vstd::prelude::*;

use crate::autoload::file_laws::{lemma_parts, lemma_within};
use crate::holding::lemma_infix_plus;
use crate::json::{value_of, Entries, JsonView};
use crate::settings::documents::State;
use crate::settings::read::{
    field_of, full_name, list_shown, listing, raw_shown, setting_line, unit_size, whole_listing,
};
use crate::text::{has_infix, joined};

verus! {

/// The setting at the end of a path of keys is below the entries.
pub open spec fn is_below(o: Entries, path: Seq<int>, value: JsonView) -> bool
    decreases path.len(),
{
    path.len() > 0 && 0 <= path[0] < o.len() && if path.len() == 1 {
        o[path[0]].1 == value && !(value is Object)
    } else {
        o[path[0]].1 matches JsonView::Object(inner) && is_below(inner, path.drop_first(), value)
    }
}

/// The name of the setting at the end of a path: the keys with dots between them.
pub open spec fn name_at(prefix: Seq<char>, o: Entries, path: Seq<int>) -> Seq<char>
    decreases path.len(),
{
    let key = o[path[0]].0;
    let name = if prefix.len() == 0 {
        key
    } else {
        prefix + "."@ + key
    };
    if path.len() <= 1 {
        name
    } else {
        name_at(name, o[path[0]].1->Object_0, path.drop_first())
    }
}

proof fn lemma_line(
    name: Seq<char>,
    value: JsonView,
    source: Option<JsonView>,
    show_source: bool,
    resolved: Option<JsonView>,
    max_size: Option<u64>,
)
    ensures
        has_infix(
            setting_line(name, value, source, show_source, resolved, max_size),
            "["@ + name + "] "@ + raw_shown(value),
        ),
{
    let raw = raw_shown(value);
    let shown = list_shown(name, value, resolved, max_size);
    let x = "["@ + name + "] "@ + raw;
    let head = "["@ + name + "] "@;
    let line = head + shown;
    assert(has_infix(line, x)) by {
        let rest = shown.skip(raw.len() as int);
        assert(shown =~= raw + rest);
        assert(line =~= x + rest);
        lemma_parts(x, rest);
    }
    let whole = setting_line(name, value, source, show_source, resolved, max_size);
    let end = whole.skip(line.len() as int);
    assert(whole =~= line + end);
    lemma_parts(line, end);
    lemma_within(whole, line, x);
}

proof fn lemma_listing(
    out: Seq<char>,
    prefix: Seq<char>,
    o: Entries,
    n: int,
    source: Option<JsonView>,
    show_source: bool,
    resolved: Option<JsonView>,
    max_size: Option<u64>,
    path: Seq<int>,
    value: JsonView,
)
    requires
        0 <= n <= o.len(),
    ensures
        has_infix(listing(out, prefix, o, n, source, show_source, resolved, max_size), out),
        is_below(o, path, value) && path[0] < n ==> has_infix(
            listing(out, prefix, o, n, source, show_source, resolved, max_size),
            "["@ + name_at(prefix, o, path) + "] "@ + raw_shown(value),
        ),
    decreases o, n,
{
    lemma_infix_plus(out, out, out);
    if n > 0 {
        lemma_listing(
            out,
            prefix,
            o,
            n - 1,
            source,
            show_source,
            resolved,
            max_size,
            path,
            value,
        );
        let so_far = listing(out, prefix, o, n - 1, source, show_source, resolved, max_size);
        let whole = listing(out, prefix, o, n, source, show_source, resolved, max_size);
        let (key, child) = o[n - 1];
        let name = full_name(prefix, key);
        let x = "["@ + name_at(prefix, o, path) + "] "@ + raw_shown(value);
        match child {
            JsonView::Object(inner) => {
                lemma_listing(
                    so_far,
                    name,
                    inner,
                    inner.len() as int,
                    field_of(source, key),
                    show_source,
                    resolved,
                    max_size,
                    path.drop_first(),
                    value,
                );
                if is_below(o, path, value) && path[0] == n - 1 {
                    assert(path.len() > 1);
                    assert(is_below(inner, path.drop_first(), value));
                    assert(path.drop_first()[0] < inner.len());
                    assert(name_at(prefix, o, path) == name_at(name, inner, path.drop_first()));
                }
            },
            _ => {
                let r = if prefix.len() == 0 {
                    field_of(resolved, key)
                } else {
                    None
                };
                let line = setting_line(
                    name,
                    child,
                    field_of(source, key),
                    show_source,
                    r,
                    max_size,
                );
                lemma_parts(so_far, line);
                lemma_line(name, child, field_of(source, key), show_source, r, max_size);
                if is_below(o, path, value) && path[0] == n - 1 {
                    lemma_within(whole, line, x);
                }
            },
        }
        lemma_within(whole, so_far, out);
        if is_below(o, path, value) && path[0] < n - 1 {
            lemma_within(whole, so_far, x);
        }
    }
}

/// Every setting under `config`, at any depth, has its line in the list, with its full name and its
/// value, and so has every one of the repositories.
pub proof fn law_every_setting_is_listed(
    s: State,
    show_source: bool,
    max_size: Option<u64>,
    path: Seq<int>,
    value: JsonView,
)
    ensures
        value_of(s.value, "config"@) matches Some(JsonView::Object(o)) ==> is_below(o, path, value)
            ==> has_infix(
            whole_listing(s, show_source, max_size),
            "["@ + name_at(Seq::empty(), o, path) + "] "@ + raw_shown(value),
        ),
        value_of(s.value, "repositories"@) matches Some(JsonView::Object(o)) ==> is_below(
            o,
            path,
            value,
        ) ==> has_infix(
            whole_listing(s, show_source, max_size),
            "["@ + name_at("repositories"@, o, path) + "] "@ + raw_shown(value),
        ),
{
    let repositories = match value_of(s.value, "repositories"@) {
        Some(v) => listing(
            Seq::empty(),
            "repositories"@,
            v.entries(),
            v.entries().len() as int,
            value_of(s.sources, "repositories"@),
            show_source,
            None,
            max_size,
        ),
        None => Seq::empty(),
    };
    if let Some(v) = value_of(s.value, "repositories"@) {
        lemma_listing(
            Seq::empty(),
            "repositories"@,
            v.entries(),
            v.entries().len() as int,
            value_of(s.sources, "repositories"@),
            show_source,
            None,
            max_size,
            path,
            value,
        );
    }
    let whole = whole_listing(s, show_source, max_size);
    lemma_infix_plus(repositories, repositories, repositories);
    if let Some(v) = value_of(s.value, "config"@) {
        lemma_listing(
            repositories,
            Seq::empty(),
            v.entries(),
            v.entries().len() as int,
            value_of(s.sources, "config"@),
            show_source,
            value_of(s.value, "_resolved-paths"@),
            max_size,
            path,
            value,
        );
    }
    assert(has_infix(whole, repositories));
    if let Some(JsonView::Object(o)) = value_of(s.value, "repositories"@) {
        if is_below(o, path, value) {
            lemma_within(
                whole,
                repositories,
                "["@ + name_at("repositories"@, o, path) + "] "@ + raw_shown(value),
            );
        }
    }
}

/// A value is shown as what it is: a text plain, a switch by its word, and a list with all its
/// texts.
pub proof fn law_values_are_shown(t: Seq<char>, items: Seq<Seq<char>>)
    ensures
        raw_shown(JsonView::Text(t)) == t,
        raw_shown(JsonView::Bool(true)) == "true"@,
        raw_shown(JsonView::Bool(false)) == "false"@,
        raw_shown(JsonView::Array(items.map_values(|x: Seq<char>| JsonView::Text(x)))) == "["@
            + joined(items, ", "@) + "]"@,
{
    let list = items.map_values(|x: Seq<char>| JsonView::Text(x));
    assert(list.map_values(|v: JsonView| crate::settings::read::shown_element(v)) =~= items);
}

/// Each unit is a thousand and twenty-four of the one before.
pub proof fn law_units_grow(
    k: Seq<char>,
    m: Seq<char>,
    g: Seq<char>,
)
    requires
        k == "k"@ || k == "kb"@ || k == "kib"@,
        m == "m"@ || m == "mb"@ || m == "mib"@,
        g == "g"@ || g == "gb"@ || g == "gib"@,
    ensures
        unit_size(""@) == Some(1u64),
        unit_size(k) is Some && unit_size(k)->0 == 1024,
        unit_size(m) is Some && unit_size(m)->0 == 1024 * unit_size(k)->0,
        unit_size(g) is Some && unit_size(g)->0 == 1024 * unit_size(m)->0,
{
    reveal_strlit("");
    reveal_strlit("k");
    reveal_strlit("kb");
    reveal_strlit("kib");
    reveal_strlit("m");
    reveal_strlit("mb");
    reveal_strlit("mib");
    reveal_strlit("g");
    reveal_strlit("gb");
    reveal_strlit("gib");
    assert(k.len() > 0 && m.len() > 0 && g.len() > 0);
    assert(k[0] == 'k' && m[0] == 'm' && g[0] == 'g');
    assert("k"@[0] == 'k' && "kb"@[0] == 'k' && "kib"@[0] == 'k');
    assert("m"@[0] == 'm' && "mb"@[0] == 'm' && "mib"@[0] == 'm');
    assert(""@.len() == 0);
}

} // verus!
