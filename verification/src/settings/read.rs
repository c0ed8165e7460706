//! Showing settings: one of them, or all.
use vstd::prelude::*;
use vstd::string::*;

use crate::error::Refusal;
use crate::json::{
    at_path, copy, empty_object, entries_view, find_key, items_view, lemma_array_view,
    lemma_object_view, nested, text, value_of, Entries, Json, JsonView,
};
use crate::json_text::{compact, print};
use crate::settings::documents::{first_origin, source_leaf, MergedConfig, State};
use crate::settings::keys::{
    auth_key, credentials_of, is_path_setting, path_setting, repository_key, repository_of,
};
use crate::settings::write::path_below;
use crate::text::{
    after, before, contains_char, decimal, joined, number, pieces, split, str_equal, str_views,
    trim, trimmed, ascii_lower, to_ascii_lowercase, chars_of, is_digit, views, join,
};

verus! {

// ---------------------------------------------------------------------------
// One setting
// ---------------------------------------------------------------------------
/// Where the value at a path comes from.
pub open spec fn origin_at(sources: Entries, path: Seq<Seq<char>>, otherwise: Seq<char>) -> Seq<
    char,
> {
    match at_path(JsonView::Object(sources), path) {
        Some(t) => match first_origin(t) {
            Some(u) => u,
            None => otherwise,
        },
        None => otherwise,
    }
}

/// What a setting of the manifest is where the manifest leaves it open.
pub open spec fn manifest_default(key: Seq<char>) -> Option<JsonView> {
    if key == "type"@ {
        Some(JsonView::Text("library"@))
    } else if key == "description"@ || key == "homepage"@ {
        Some(JsonView::Text(Seq::empty()))
    } else if key == "minimum-stability"@ {
        Some(JsonView::Text("stable"@))
    } else if key == "prefer-stable"@ {
        Some(JsonView::Bool(false))
    } else if key == "keywords"@ || key == "license"@ {
        Some(JsonView::Array(Seq::empty()))
    } else if key == "suggest"@ || key == "extra"@ {
        Some(empty_object())
    } else {
        None
    }
}

/// The value at a path and its origin; `fault` where there is none.
pub open spec fn read_at(
    s: State,
    path: Seq<Seq<char>>,
    otherwise: Seq<char>,
    fault: Seq<char>,
) -> Result<(JsonView, Seq<char>), Seq<char>> {
    match at_path(JsonView::Object(s.value), path) {
        Some(v) => Ok((v, origin_at(s.sources, path, otherwise))),
        None => Err(fault),
    }
}

/// The value of a setting and where it comes from.
pub open spec fn setting_read(
    key: Seq<char>,
    s: State,
    selected: JsonView,
    source_name: Seq<char>,
    absolute: bool,
) -> Result<(JsonView, Seq<char>), Seq<char>> {
    if let Some(name) = repository_of(key) {
        let fault = "There is no "@ + name + " repository defined"@;
        if name.len() == 0 {
            match at_path(JsonView::Object(s.value), seq!["repositories"@]) {
                Some(v) => Ok((v, "unknown"@)),
                None => Err(fault),
            }
        } else {
            read_at(s, seq!["repositories"@, name], "unknown"@, fault)
        }
    } else if let Some((kind, host)) = credentials_of(key) {
        read_at(s, seq!["config"@, kind, host], "unknown"@, key + " is not defined."@)
    } else if key.contains('.') {
        let root = pieces(key, '.')[0];
        if root == "extra"@ || root == "suggest"@ {
            match at_path(selected, pieces(key, '.')) {
                Some(v) => Ok((v, source_name)),
                None => Err(key + " is not defined."@),
            }
        } else {
            read_at(s, path_below("config"@, key), "default"@, key + " is not defined."@)
        }
    } else if let Some(v) = at_path(JsonView::Object(s.value), seq!["config"@, key]) {
        let shown = match at_path(JsonView::Object(s.value), seq!["_resolved-paths"@, key]) {
            Some(resolved) => if absolute && path_setting(key) {
                resolved
            } else {
                v
            },
            None => v,
        };
        Ok((shown, origin_at(s.sources, seq!["config"@, key], "default"@)))
    } else if let Some(v) = selected.field(key) {
        Ok((v, source_name))
    } else if let Some(v) = manifest_default(key) {
        Ok((v, "defaults"@))
    } else {
        Err(key + " is not defined"@)
    }
}

/// What reading a setting comes to.
pub open spec fn read_outcome(r: Result<(Json, String), Refusal>) -> Result<
    (JsonView, Seq<char>),
    Seq<char>,
> {
    match r {
        Ok((v, s)) => Ok((v@, s@)),
        Err(e) => Err(e@),
    }
}

/// The value at the end of a path of keys below the entries of an object.
fn entries_at<'a>(entries: &'a Vec<(String, Json)>, path: &[&str]) -> (r: Option<&'a Json>)
    requires
        path.len() > 0,
    ensures
        r.is_some() == at_path(
            JsonView::Object(entries_view(entries@)),
            str_views(path@),
        ).is_some(),
        r matches Some(v) ==> v@ == at_path(
            JsonView::Object(entries_view(entries@)),
            str_views(path@),
        )->0,
{
    let at: usize = find_key(entries, path[0]);
    let rest = vstd::slice::slice_subrange(path, 1, path.len());
    assert(str_views(rest@) =~= str_views(path@).drop_first());
    if at < entries.len() {
        assert(entries_view(entries@)[at as int].1 == entries@[at as int].1@);
        nested(&entries[at].1, rest)
    } else {
        None
    }
}

/// Where the value at a path comes from.
fn source_at(sources: &Vec<(String, Json)>, path: &[&str], otherwise: &str) -> (r: String)
    requires
        path.len() > 0,
    ensures
        r@ == origin_at(entries_view(sources@), str_views(path@), otherwise@),
{
    match entries_at(sources, path) {
        Some(t) => match source_leaf(t) {
            Some(u) => u.to_owned(),
            None => otherwise.to_owned(),
        },
        None => otherwise.to_owned(),
    }
}

fn read_path(merged: &MergedConfig, path: &[&str], otherwise: &str, fault: String) -> (r: Result<
    (Json, String),
    Refusal,
>)
    requires
        path.len() > 0,
    ensures
        read_outcome(r) == read_at(merged@, str_views(path@), otherwise@, fault@),
{
    match entries_at(&merged.value, path) {
        Some(v) => Ok((copy(v), source_at(&merged.sources, path, otherwise))),
        None => Err(Refusal { message: fault }),
    }
}

fn default_of(key: &str) -> (r: Option<Json>)
    ensures
        r.is_some() == manifest_default(key@).is_some(),
        r matches Some(v) ==> v@ == manifest_default(key@)->0,
{
    broadcast use {lemma_array_view, lemma_object_view};

    if str_equal(key, "type") {
        Some(text("library"))
    } else if str_equal(key, "description") || str_equal(key, "homepage") {
        Some(Json::Text(String::new()))
    } else if str_equal(key, "minimum-stability") {
        Some(text("stable"))
    } else if str_equal(key, "prefer-stable") {
        Some(Json::Bool(false))
    } else if str_equal(key, "keywords") || str_equal(key, "license") {
        let none: Vec<Json> = Vec::new();
        assert(items_view(none@) =~= Seq::empty());
        Some(Json::Array(none))
    } else if str_equal(key, "suggest") || str_equal(key, "extra") {
        let none: Vec<(String, Json)> = Vec::new();
        assert(entries_view(none@) =~= Seq::empty());
        Some(Json::Object(none))
    } else {
        None
    }
}

/// The value of a setting and where it comes from. `selected` is the file that was
/// asked about, `source_name` its name.
pub fn read_setting(
    setting_key: &str,
    merged: &MergedConfig,
    selected: &Json,
    source_name: &str,
    absolute: bool,
) -> (r: Result<(Json, String), Refusal>)
    ensures
        read_outcome(r) == setting_read(
            setting_key@,
            merged@,
            selected@,
            source_name@,
            absolute,
        ),
{
    if let Some(name) = repository_key(setting_key) {
        let fault = "There is no ".to_owned().concat(name).concat(" repository defined");
        let mut path: Vec<&str> = Vec::new();
        path.push("repositories");
        if name.is_empty() {
            assert(str_views(path@) =~= seq!["repositories"@]);
            return match entries_at(&merged.value, path.as_slice()) {
                Some(v) => Ok((copy(v), "unknown".to_owned())),
                None => Err(Refusal { message: fault }),
            };
        }
        path.push(name);
        assert(str_views(path@) =~= seq!["repositories"@, name@]);
        return read_path(merged, path.as_slice(), "unknown", fault);
    }
    if let Some((kind, host)) = auth_key(setting_key) {
        let fault = setting_key.to_owned().concat(" is not defined.");
        let mut path: Vec<&str> = Vec::new();
        path.push("config");
        path.push(kind);
        path.push(host);
        assert(str_views(path@) =~= seq!["config"@, kind@, host@]);
        return read_path(merged, path.as_slice(), "unknown", fault);
    }
    if contains_char(setting_key, '.') {
        let fault = setting_key.to_owned().concat(" is not defined.");
        let bits = split(setting_key, '.');
        assert(str_views(bits@)[0] == bits@[0]@);
        if str_equal(bits[0], "extra") || str_equal(bits[0], "suggest") {
            return match nested(selected, bits.as_slice()) {
                Some(v) => Ok((copy(v), source_name.to_owned())),
                None => Err(Refusal { message: fault }),
            };
        }
        let mut path = bits;
        path.insert(0, "config");
        assert(str_views(path@) =~= path_below("config"@, setting_key@));
        return read_path(merged, path.as_slice(), "default", fault);
    }
    let mut path: Vec<&str> = Vec::new();
    path.push("config");
    path.push(setting_key);
    assert(str_views(path@) =~= seq!["config"@, setting_key@]);
    if let Some(value) = entries_at(&merged.value, path.as_slice()) {
        let source = source_at(&merged.sources, path.as_slice(), "default");
        if absolute && is_path_setting(setting_key) {
            let mut place: Vec<&str> = Vec::new();
            place.push("_resolved-paths");
            place.push(setting_key);
            assert(str_views(place@) =~= seq!["_resolved-paths"@, setting_key@]);
            if let Some(resolved) = entries_at(&merged.value, place.as_slice()) {
                return Ok((copy(resolved), source));
            }
        }
        return Ok((copy(value), source));
    }
    if let Some(value) = selected.get(setting_key) {
        return Ok((copy(value), source_name.to_owned()));
    }
    match default_of(setting_key) {
        Some(v) => Ok((v, "defaults".to_owned())),
        None => {
            let message = setting_key.to_owned().concat(" is not defined");
            Err(Refusal { message })
        },
    }
}

/// How a value is shown: a text as it is, nothing for `null`, else as JSON.
pub open spec fn displayed(value: JsonView) -> Seq<char> {
    match value {
        JsonView::Text(t) => t,
        JsonView::Null => Seq::empty(),
        other => compact(other),
    }
}

/// How a value is shown.
pub fn display_value(value: &Json) -> (r: String)
    ensures
        r@ == displayed(value@),
{
    match value {
        Json::Text(t) => t.clone(),
        Json::Null => String::new(),
        other => print(other),
    }
}

// ---------------------------------------------------------------------------
// All settings
// ---------------------------------------------------------------------------
/// How an element of a list is shown: a text as it is, else as JSON.
pub open spec fn shown_element(value: JsonView) -> Seq<char> {
    match value {
        JsonView::Text(t) => t,
        other => compact(other),
    }
}

/// How a value is shown in the list of settings.
pub open spec fn raw_shown(value: JsonView) -> Seq<char> {
    match value {
        JsonView::Array(items) => "["@ + joined(
            items.map_values(|v: JsonView| shown_element(v)),
            ", "@,
        ) + "]"@,
        JsonView::Bool(b) => if b {
            "true"@
        } else {
            "false"@
        },
        JsonView::Null => Seq::empty(),
        JsonView::Text(t) => t,
        other => compact(other),
    }
}

/// A value in the list of settings, with the size in bytes or the resolved
/// directory behind it where these tell more.
pub open spec fn list_shown(
    key: Seq<char>,
    value: JsonView,
    resolved: Option<JsonView>,
    max_size: Option<u64>,
) -> Seq<char> {
    let raw = raw_shown(value);
    if key == "cache-files-maxsize"@ && max_size is Some {
        raw + " ("@ + decimal(max_size->0 as nat) + ")"@
    } else {
        match resolved {
            Some(JsonView::Text(t)) => if t != raw && t.len() > 0 {
                raw + " ("@ + t + ")"@
            } else {
                raw
            },
            _ => raw,
        }
    }
}

/// The value under a key of what may be an object.
pub open spec fn field_of(v: Option<JsonView>, key: Seq<char>) -> Option<JsonView> {
    match v {
        Some(j) => j.field(key),
        None => None,
    }
}

/// The name of a setting below a prefix.
pub open spec fn full_name(prefix: Seq<char>, key: Seq<char>) -> Seq<char> {
    if prefix.len() == 0 {
        key
    } else {
        prefix + "."@ + key
    }
}

/// The line of one setting.
pub open spec fn setting_line(
    name: Seq<char>,
    value: JsonView,
    source: Option<JsonView>,
    show_source: bool,
    resolved: Option<JsonView>,
    max_size: Option<u64>,
) -> Seq<char> {
    let line = "["@ + name + "] "@ + list_shown(name, value, resolved, max_size);
    let origin = match source {
        Some(t) => match first_origin(t) {
            Some(u) => u,
            None => "default"@,
        },
        None => "default"@,
    };
    if show_source {
        line + " ("@ + origin + ")"@ + "\n"@
    } else {
        line + "\n"@
    }
}

/// The text `out` followed by the lines of the first `n` entries of an object, a
/// nested object giving one line for each of its settings.
pub open spec fn listing(
    out: Seq<char>,
    prefix: Seq<char>,
    o: Entries,
    n: int,
    source: Option<JsonView>,
    show_source: bool,
    resolved: Option<JsonView>,
    max_size: Option<u64>,
) -> Seq<char>
    decreases o, n,
{
    if n <= 0 || n > o.len() {
        out
    } else {
        let so_far = listing(out, prefix, o, n - 1, source, show_source, resolved, max_size);
        let (key, child) = o[n - 1];
        let name = full_name(prefix, key);
        match child {
            JsonView::Object(inner) => listing(
                so_far,
                name,
                inner,
                inner.len() as int,
                field_of(source, key),
                show_source,
                resolved,
                max_size,
            ),
            _ => so_far + setting_line(
                name,
                child,
                field_of(source, key),
                show_source,
                if prefix.len() == 0 {
                    field_of(resolved, key)
                } else {
                    None
                },
                max_size,
            ),
        }
    }
}

/// What may be there.
pub open spec fn option_view(v: Option<&Json>) -> Option<JsonView> {
    match v {
        Some(j) => Some(j@),
        None => None,
    }
}

fn show_element(value: &Json) -> (r: String)
    ensures
        r@ == shown_element(value@),
{
    match value {
        Json::Text(t) => t.clone(),
        other => print(other),
    }
}

fn show_raw(value: &Json) -> (r: String)
    ensures
        r@ == raw_shown(value@),
{
    match value {
        Json::Array(items) => {
            proof {
                lemma_array_view(*items);
            }
            let ghost want = items_view(items@).map_values(|v: JsonView| shown_element(v));
            let mut parts: Vec<String> = Vec::new();
            let mut i: usize = 0;
            while i < items.len()
                invariant
                    i <= items.len(),
                    want == items_view(items@).map_values(|v: JsonView| shown_element(v)),
                    views(parts@) == want.take(i as int),
                decreases items.len() - i,
            {
                let one = show_element(&items[i]);
                proof {
                    crate::text::lemma_views_push(parts@, one);
                }
                parts.push(one);
                i += 1;
                assert(views(parts@) =~= want.take(i as int));
            }
            assert(views(parts@) =~= want);
            "[".to_owned().concat(join(parts.as_slice(), ", ").as_str()).concat("]")
        },
        Json::Bool(b) => if *b {
            "true".to_owned()
        } else {
            "false".to_owned()
        },
        Json::Null => String::new(),
        Json::Text(t) => t.clone(),
        other => print(other),
    }
}

fn list_display_value(
    key: &str,
    value: &Json,
    resolved: Option<&Json>,
    max_size: Option<u64>,
) -> (r: String)
    ensures
        r@ == list_shown(key@, value@, option_view(resolved), max_size),
{
    let raw = show_raw(value);
    if str_equal(key, "cache-files-maxsize") {
        if let Some(bytes) = max_size {
            return raw.concat(" (").concat(number(bytes).as_str()).concat(")");
        }
    }
    if let Some(Json::Text(t)) = resolved {
        if !str_equal(t.as_str(), raw.as_str()) && !t.as_str().is_empty() {
            return raw.concat(" (").concat(t.as_str()).concat(")");
        }
    }
    raw
}

fn list_value(
    prefix: &str,
    entries: &Vec<(String, Json)>,
    source: Option<&Json>,
    show_source: bool,
    resolved_paths: Option<&Json>,
    max_size: Option<u64>,
    output: &mut String,
)
    ensures
        final(output)@ == listing(
            old(output)@,
            prefix@,
            entries_view(entries@),
            entries.len() as int,
            option_view(source),
            show_source,
            option_view(resolved_paths),
            max_size,
        ),
    decreases entries,
{
    let ghost start = output@;
    let ghost o = entries_view(entries@);
    let mut i: usize = 0;
    while i < entries.len()
        invariant
            i <= entries.len(),
            o == entries_view(entries@),
            output@ == listing(
                start,
                prefix@,
                o,
                i as int,
                option_view(source),
                show_source,
                option_view(resolved_paths),
                max_size,
            ),
        decreases entries.len() - i,
    {
        let key = entries[i].0.as_str();
        let next = if prefix.is_empty() {
            key.to_owned()
        } else {
            prefix.to_owned().concat(".").concat(key)
        };
        let child_source = match source {
            Some(s) => s.get(key),
            None => None,
        };
        assert(option_view(child_source) == field_of(option_view(source), key@));
        match &entries[i].1 {
            Json::Object(inner) => {
                proof {
                    lemma_object_view(*inner);
                }
                list_value(
                    next.as_str(),
                    inner,
                    child_source,
                    show_source,
                    resolved_paths,
                    max_size,
                    output,
                );
            },
            child => {
                let resolved = match resolved_paths {
                    Some(paths) => if prefix.is_empty() {
                        paths.get(key)
                    } else {
                        None
                    },
                    None => None,
                };
                let shown = list_display_value(next.as_str(), child, resolved, max_size);
                let mut line = "[".to_owned().concat(next.as_str()).concat("] ").concat(
                    shown.as_str(),
                );
                if show_source {
                    line.append(" (");
                    line.append(
                        match child_source {
                            Some(s) => match source_leaf(s) {
                                Some(t) => t,
                                None => "default",
                            },
                            None => "default",
                        },
                    );
                    line.append(")");
                }
                line.append("\n");
                output.append(line.as_str());
            },
        }
        i += 1;
    }
}

/// Everything that is listed: the repositories first, then the settings.
pub open spec fn whole_listing(s: State, show_source: bool, max_size: Option<u64>) -> Seq<char> {
    let repositories = match value_of(s.value, "repositories"@) {
        Some(v) => listing(
            Seq::empty(),
            "repositories"@,
            v.entries(),
            v.entries().len() as int,
            value_of(s.sources, "repositories"@),
            show_source,
            None,
            max_size,
        ),
        None => Seq::empty(),
    };
    match value_of(s.value, "config"@) {
        Some(v) => listing(
            repositories,
            Seq::empty(),
            v.entries(),
            v.entries().len() as int,
            value_of(s.sources, "config"@),
            show_source,
            value_of(s.value, "_resolved-paths"@),
            max_size,
        ),
        None => repositories,
    }
}

fn value_at<'a>(entries: &'a Vec<(String, Json)>, key: &str) -> (r: Option<&'a Json>)
    ensures
        option_view(r) == value_of(entries_view(entries@), key@),
{
    let at: usize = find_key(entries, key);
    if at < entries.len() {
        assert(entries_view(entries@)[at as int].1 == entries@[at as int].1@);
        Some(&entries[at].1)
    } else {
        None
    }
}

/// The list of all settings. `max_size` is the size in bytes that the setting
/// `cache-files-maxsize` stands for, where it stands for one.
pub fn list_configuration(merged: &MergedConfig, show_source: bool, max_size: Option<u64>) -> (r:
    String)
    ensures
        r@ == whole_listing(merged@, show_source, max_size),
{
    let mut output = String::new();
    if let Some(repositories) = value_at(&merged.value, "repositories") {
        if let Json::Object(entries) = repositories {
            proof {
                lemma_object_view(*entries);
            }
            list_value(
                "repositories",
                entries,
                value_at(&merged.sources, "repositories"),
                show_source,
                None,
                max_size,
                &mut output,
            );
        }
    }
    if let Some(config) = value_at(&merged.value, "config") {
        if let Json::Object(entries) = config {
            proof {
                lemma_object_view(*entries);
                reveal_strlit("");
                assert(""@ =~= Seq::empty());
            }
            list_value(
                "",
                entries,
                value_at(&merged.sources, "config"),
                show_source,
                value_at(&merged.value, "_resolved-paths"),
                max_size,
                &mut output,
            );
        }
    }
    output
}

/// The length of the digits and dots that a text starts with.
pub open spec fn number_length(s: Seq<char>, from: int) -> int
    decreases s.len() - from,
{
    if from < 0 || from >= s.len() || !(is_digit(s[from]) || s[from] == '.') {
        from
    } else {
        number_length(s, from + 1)
    }
}

/// How many bytes a unit stands for.
pub open spec fn unit_size(suffix: Seq<char>) -> Option<u64> {
    if suffix == ""@ {
        Some(1)
    } else if suffix == "k"@ || suffix == "kb"@ || suffix == "kib"@ {
        Some(1024)
    } else if suffix == "m"@ || suffix == "mb"@ || suffix == "mib"@ {
        Some(1048576)
    } else if suffix == "g"@ || suffix == "gb"@ || suffix == "gib"@ {
        Some(1073741824)
    } else {
        None
    }
}

/// The digits of a size, and how many bytes its unit stands for, where the unit is known.
pub fn size_parts(value: &str) -> (r: (String, Option<u64>))
    ensures
        ({
            let t = trimmed(value@);
            let n = number_length(t, 0);
            &&& r.0@ == before(t, n)
            &&& r.1 == unit_size(ascii_lower(trimmed(after(t, n))))
        }),
{
    let t = trim(value);
    let v = chars_of(t);
    let mut i: usize = 0;
    while i < v.len() && (('0' <= v[i] && v[i] <= '9') || v[i] == '.')
        invariant
            i <= v.len(),
            v@ == t@,
            number_length(t@, 0) == number_length(t@, i as int),
        decreases v.len() - i,
    {
        i += 1;
    }
    let digits = crate::text::string_of(&v, 0, i);
    let rest = t.substring_char(i, v.len());
    let suffix = to_ascii_lowercase(trim(rest));
    let s = suffix.as_str();
    let unit = if str_equal(s, "") {
        Some(1u64)
    } else if str_equal(s, "k") || str_equal(s, "kb") || str_equal(s, "kib") {
        Some(1024u64)
    } else if str_equal(s, "m") || str_equal(s, "mb") || str_equal(s, "mib") {
        Some(1048576u64)
    } else if str_equal(s, "g") || str_equal(s, "gb") || str_equal(s, "gib") {
        Some(1073741824u64)
    } else {
        None
    };
    (digits, unit)
}

} // verus!
