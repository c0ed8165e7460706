//! What holds of the configuration of a project: in which order it is built up, and whose each
//! setting is.
use vstd::prelude::*;

use crate::config::effect_laws::law_directories_are_those_set;
use crate::config::laws::law_environment_comes_last;
use crate::config::settings::{
    all_merged, built, file_merged, from_defaults, known_keys, merged_value, source_place,
    with_source, ConfigView, EnvironmentOverrides, SourceView, Sources,
};
use crate::json::{entries_view, Entries, Json, JsonView};

verus! {

proof fn lemma_source_place(s: Sources, name: Seq<char>)
    ensures
        0 <= source_place(s, name) <= s.len(),
        source_place(s, name) < s.len() ==> s[source_place(s, name)].0 == name,
        forall|i: int| 0 <= i < source_place(s, name) ==> (#[trigger] s[i]).0 != name,
    decreases s.len(),
{
    if s.len() > 0 && s[0].0 != name {
        let rest = s.drop_first();
        lemma_source_place(rest, name);
        assert forall|i: int| 0 <= i < source_place(s, name) implies (#[trigger] s[i]).0 != name by {
            if i > 0 {
                assert(s[i] == rest[i - 1]);
            }
        }
        if source_place(rest, name) < rest.len() {
            assert(rest[source_place(rest, name)] == s[source_place(s, name)]);
        }
    }
}

/// The origin of a setting is noted, and those of the others stay.
pub proof fn law_origin_is_noted(
    s: Sources,
    name: Seq<char>,
    source: SourceView,
    other: (Seq<char>, SourceView),
)
    ensures
        with_source(s, name, source).contains((name, source)),
        other.0 != name ==> with_source(s, name, source).contains(other) == s.contains(other),
{
    lemma_source_place(s, name);
    let at = source_place(s, name);
    let t = with_source(s, name, source);
    if at < s.len() {
        assert(t[at] == (name, source));
    } else {
        assert(t[s.len() as int] == (name, source));
    }
    if other.0 != name {
        if s.contains(other) {
            let i = choose|i: int| 0 <= i < s.len() && s[i] == other;
            assert(t[i] == other);
        }
        if t.contains(other) {
            let i = choose|i: int| 0 <= i < t.len() && t[i] == other;
            assert(s[i] == other);
        }
    }
}

proof fn lemma_prefix(c: ConfigView, o: Entries, p: Entries, n: int, source: SourceView)
    requires
        0 <= n <= o.len(),
        n <= p.len(),
        forall|i: int| 0 <= i < n ==> #[trigger] o[i] == p[i],
    ensures
        all_merged(c, o, n, source) == all_merged(c, p, n, source),
    decreases n,
{
    if n > 0 {
        lemma_prefix(c, o, p, n - 1, source);
    }
}

/// The settings of a file take effect one after the other: one more setting takes effect on top of
/// those before it, and a file without settings changes nothing.
pub proof fn law_settings_take_effect_in_order(
    c: ConfigView,
    o: Entries,
    e: (Seq<char>, JsonView),
    source: SourceView,
)
    ensures
        all_merged(c, o.push(e), (o.len() + 1) as int, source) == merged_value(
            all_merged(c, o, o.len() as int, source),
            e.0,
            e.1,
            source,
        ),
        all_merged(c, Seq::empty(), 0, source) == c,
{
    lemma_prefix(c, o, o.push(e), o.len() as int, source);
}

/// What a variable of the environment sets is in force in the configuration of a project.
pub proof fn law_environment_is_in_force(
    base_dir: Option<Seq<char>>,
    global: Option<Vec<(String, Json)>>,
    project: Option<Vec<(String, Json)>>,
    e: EnvironmentOverrides,
    home: Seq<char>,
    cache: Seq<char>,
)
    ensures
        ({
            let c = built(base_dir, global, project, Some(e), home, cache);
            &&& e.vendor_dir matches Some(t) ==> c.vendor_dir == t@
            &&& e.cache_dir matches Some(t) ==> c.cache_dir == Some(t@)
            &&& e.process_timeout matches Some(n) ==> c.process_timeout == n
            &&& e.cache_read_only matches Some(b) ==> c.cache_read_only == b
            &&& e.htaccess_protect matches Some(b) ==> c.htaccess_protect == b
        }),
{
    let c = from_defaults(
        ConfigView { base_dir, ..crate::config::settings::default_config() },
        known_keys().len() as int,
    );
    let c = file_merged(c, global, SourceView::Global);
    let c = file_merged(c, project, SourceView::Project);
    law_environment_comes_last(c, e);
}

/// What the file of the project sets last is in force where the environment sets nothing: the
/// global file comes before it.
pub proof fn law_project_file_comes_last(
    base_dir: Option<Seq<char>>,
    global: Option<Vec<(String, Json)>>,
    project: Vec<(String, Json)>,
    t: Seq<char>,
    home: Seq<char>,
    cache: Seq<char>,
)
    requires
        project@.len() > 0,
        entries_view(project@).last() == ("vendor-dir"@, JsonView::Text(t)),
    ensures
        built(base_dir, global, Some(project), None, home, cache).vendor_dir == t,
{
    let c = from_defaults(
        ConfigView { base_dir, ..crate::config::settings::default_config() },
        known_keys().len() as int,
    );
    let c = file_merged(c, global, SourceView::Global);
    let o = entries_view(project@);
    assert(o.len() == project@.len());
    let before = all_merged(c, o, o.len() - 1, SourceView::Project);
    law_directories_are_those_set(before, SourceView::Project, t, 0);
}

} // verus!
