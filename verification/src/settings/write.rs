//! Writing and unsetting settings.
use vstd::prelude::*;
use vstd::string::*;

use crate::error::{refuse, refuse_about, Refusal};
use crate::json::{
    at_path, copy, items_view, lemma_array_view, nested, remove_nested, set_nested, text, with_path,
    without_path, Json, JsonView, Number, NumberView,
};
use crate::settings::keys::{
    auth_key, audit_choice_key, bool_key, config_key, credentials_of, integer_key,
    is_audit_choice_key, is_bool_config_key, is_config_key, is_integer_config_key,
    is_json_merge_key, is_multi_config_key, is_nullable_key, is_plain_choice_key,
    is_policy_ignore_key, is_policy_list_toggle, is_root_list_property, is_root_string_property,
    is_string_config_key, json_merge_key, multi_key, nullable_key, plain_choice_key,
    policy_ignore_key, policy_list, policy_list_toggle, policy_name, policy_name_fault,
    repository_key, repository_of, root_list, root_string, string_key, validate_policy_name,
};
use crate::settings::repositories::{
    remove_repository, set_repository, with_repository, without_named_repository,
};
use crate::settings::values::{
    choice, choice_fault, credentials, described_repository, json_argument, json_outcome,
    list_fault, merge_json_values, merge_outcome, normalize_auth, normalize_enum_or_bool,
    parse_bool, parse_json_argument, read_view, read_word, repository_value, require_one, single,
    text_array, text_list, truth, validate_multi, word_read,
};
use crate::text::{
    ascii_lower, ends_with, has_prefix, has_suffix, join, joined, lemma_str_views_push, pieces,
    split, starts_with, str_equal, str_views, strip_prefix, to_ascii_lowercase, views,
    without_prefix,
};

verus! {

/// What the user asks of the `config` command.
#[derive(Debug)]
pub struct ConfigArgs {
    /// Work on the global configuration file.
    pub global: bool,
    /// Open the file in an editor.
    pub editor: bool,
    /// Edit the credentials instead of the configuration.
    pub auth: bool,
    /// Remove the setting.
    pub unset: bool,
    /// List the settings.
    pub list: bool,
    /// The file to work on, where it is not the manifest.
    pub file: Option<String>,
    /// Give directories as absolute paths.
    pub absolute: bool,
    /// Read the value as JSON.
    pub json: bool,
    /// Merge the value into the present one.
    pub merge: bool,
    /// Put a repository behind the others instead of in front.
    pub append: bool,
    /// Tell where a value comes from.
    pub source: bool,
    /// The setting.
    pub setting_key: Option<String>,
    /// The words of its value.
    pub setting_value: Vec<String>,
    /// The directory to work in.
    pub working_dir: String,
}

/// A change that a request comes to.
#[derive(Debug)]
pub enum Change<'a> {
    /// A value at the end of a path in the manifest.
    Assign(Vec<&'a str>, Json),
    /// A repository under a name.
    Repository(&'a str, Json),
    /// Credentials of a kind for a host.
    Credentials(&'a str, &'a str, Json),
}

/// What a change is.
pub enum ChangeView {
    Assign(Seq<Seq<char>>, JsonView),
    Repository(Seq<char>, JsonView),
    Credentials(Seq<char>, Seq<char>, JsonView),
}

impl<'a> View for Change<'a> {
    type V = ChangeView;

    open spec fn view(&self) -> ChangeView {
        match *self {
            Change::Assign(path, v) => ChangeView::Assign(str_views(path@), v@),
            Change::Repository(name, v) => ChangeView::Repository(name@, v@),
            Change::Credentials(kind, host, v) => ChangeView::Credentials(kind@, host@, v@),
        }
    }
}

/// What planning a change comes to.
pub open spec fn plan_outcome<'a>(r: Result<Change<'a>, Refusal>) -> Result<
    ChangeView,
    Seq<char>,
> {
    match r {
        Ok(c) => Ok(c@),
        Err(e) => Err(e@),
    }
}

/// The path of a key with dots, below `top`.
pub open spec fn path_below(top: Seq<char>, key: Seq<char>) -> Seq<Seq<char>> {
    seq![top] + pieces(key, '.')
}

/// A value set at a path, where there is a value.
pub open spec fn set_at(path: Seq<Seq<char>>, value: Result<JsonView, Seq<char>>) -> Result<
    ChangeView,
    Seq<char>,
> {
    match value {
        Ok(v) => Ok(ChangeView::Assign(path, v)),
        Err(m) => Err(m),
    }
}

/// A truth value as JSON.
pub open spec fn truth_value(value: Seq<char>) -> Result<JsonView, Seq<char>> {
    match truth(value) {
        Ok(b) => Ok(JsonView::Bool(b)),
        Err(m) => Err(m),
    }
}

/// A whole number as JSON.
pub open spec fn integer(n: i64) -> JsonView {
    if n >= 0 {
        JsonView::Number(NumberView::Unsigned(n as u64))
    } else {
        JsonView::Number(NumberView::Negative(n))
    }
}

/// The value merged into what the document has at the path, where merging was asked for.
pub open spec fn perhaps_merged(
    document: JsonView,
    path: Seq<Seq<char>>,
    value: JsonView,
    key: Seq<char>,
    merge: bool,
) -> Result<JsonView, Seq<char>> {
    match at_path(document, path) {
        Some(current) => if merge {
            merge_outcome(current, value, key)
        } else {
            Ok(value)
        },
        None => Ok(value),
    }
}

pub open spec fn unsupported(key: Seq<char>) -> Seq<char> {
    "Setting "@ + key + " does not exist or is not supported by this command"@
}

pub open spec fn invalid_value(value: Seq<char>) -> Seq<char> {
    "\""@ + value + "\" is an invalid value"@
}

pub open spec fn stability(word: Seq<char>) -> bool {
    word == "dev"@ || word == "alpha"@ || word == "beta"@ || word == "rc"@ || word == "stable"@
}

pub open spec fn reach_word(word: Seq<char>) -> bool {
    word == "install"@ || word == "update"@
}

/// The value is a list of the words `install` and `update`.
pub open spec fn reach_list(value: JsonView) -> bool {
    value matches JsonView::Array(items) && forall|i: int|
        0 <= i < items.len() ==> ((#[trigger] items[i]) matches JsonView::Text(t) && reach_word(t))
}

/// A single word and what is made of it.
pub open spec fn from_single(
    values: Seq<Seq<char>>,
    path: Seq<Seq<char>>,
    made: spec_fn(Seq<char>) -> Result<JsonView, Seq<char>>,
) -> Result<ChangeView, Seq<char>> {
    match single(values) {
        Err(m) => Err(m),
        Ok(word) => set_at(path, made(word)),
    }
}

/// A setting at the top of the manifest, or under `scripts`, `suggest` and `extra`.
pub open spec fn manifest_change(
    key: Seq<char>,
    values: Seq<Seq<char>>,
    json: bool,
    merge: bool,
    document: JsonView,
    read: Option<JsonView>,
) -> Option<Result<ChangeView, Seq<char>>> {
    if root_string(key) {
        Some(from_single(values, seq![key], |w: Seq<char>| Ok(JsonView::Text(w))))
    } else if root_list(key) {
        Some(Ok(ChangeView::Assign(seq![key], text_list(values))))
    } else if key == "minimum-stability"@ {
        Some(
            from_single(
                values,
                seq![key],
                |w: Seq<char>|
                    if stability(ascii_lower(w)) {
                        Ok(JsonView::Text(ascii_lower(w)))
                    } else {
                        Err(invalid_value(w))
                    },
            ),
        )
    } else if key == "prefer-stable"@ {
        Some(from_single(values, seq![key], |w: Seq<char>| truth_value(w)))
    } else if let Some(path) = without_prefix(key, "scripts."@) {
        Some(
            Ok(
                ChangeView::Assign(
                    seq!["scripts"@, path],
                    if values.len() == 1 {
                        JsonView::Text(values[0])
                    } else {
                        text_list(values)
                    },
                ),
            ),
        )
    } else if let Some(path) = without_prefix(key, "suggest."@) {
        Some(Ok(ChangeView::Assign(seq!["suggest"@, path], JsonView::Text(joined(values, " "@)))))
    } else if let Some(path) = without_prefix(key, "extra."@) {
        let given = if json {
            json_argument(values, read)
        } else if values.len() > 0 {
            Ok(JsonView::Text(values[0]))
        } else {
            Ok(JsonView::Text(Seq::empty()))
        };
        let full = path_below("extra"@, path);
        Some(
            match given {
                Err(m) => Err(m),
                Ok(v) => set_at(full, perhaps_merged(document, full, v, key, merge)),
            },
        )
    } else {
        None
    }
}

/// A setting for a platform package, an install preference or a plugin.
pub open spec fn named_change(key: Seq<char>, values: Seq<Seq<char>>) -> Option<
    Result<ChangeView, Seq<char>>,
> {
    if let Some(platform) = without_prefix(key, "platform."@) {
        Some(
            from_single(
                values,
                seq!["config"@, "platform"@, platform],
                |w: Seq<char>|
                    if ascii_lower(platform) == "php"@ && w == "false"@ {
                        Err("config.platform.php cannot be disabled"@)
                    } else if w == "false"@ {
                        Ok(JsonView::Bool(false))
                    } else {
                        Ok(JsonView::Text(w))
                    },
            ),
        )
    } else if let Some(pattern) = without_prefix(key, "preferred-install."@) {
        Some(
            from_single(
                values,
                seq!["config"@, "preferred-install"@, pattern],
                |w: Seq<char>|
                    if w == "auto"@ || w == "source"@ || w == "dist"@ {
                        Ok(JsonView::Text(w))
                    } else {
                        Err(choice_fault(key, w))
                    },
            ),
        )
    } else if let Some(plugin) = without_prefix(key, "allow-plugins."@) {
        Some(
            from_single(
                values,
                seq!["config"@, "allow-plugins"@, plugin],
                |w: Seq<char>| truth_value(w),
            ),
        )
    } else {
        None
    }
}

/// A setting of an audit or of a policy that takes a list or an object.
pub open spec fn list_change(
    key: Seq<char>,
    values: Seq<Seq<char>>,
    json: bool,
    merge: bool,
    document: JsonView,
    read: Option<JsonView>,
) -> Option<Result<ChangeView, Seq<char>>> {
    let given = if json {
        json_argument(values, read)
    } else {
        Ok(text_list(values))
    };
    if json_merge_key(key) || policy_ignore_key(key) {
        let path = path_below("config"@, key);
        Some(
            if policy_ignore_key(key) && policy_name_fault(key) is Some {
                Err(policy_name_fault(key)->0)
            } else {
                match given {
                    Err(m) => Err(m),
                    Ok(v) => if !(v is Array) && !(v is Object) {
                        Err("Expected an array or object for "@ + key)
                    } else {
                        set_at(path, perhaps_merged(document, path, v, key, merge))
                    },
                }
            },
        )
    } else if key == "policy.ignore-unreachable"@ && (json || (values.len() > 0 && reach_word(
        values[0],
    ))) {
        Some(
            match given {
                Err(m) => Err(m),
                Ok(v) => if reach_list(v) {
                    Ok(ChangeView::Assign(seq!["config"@, "policy"@, "ignore-unreachable"@], v))
                } else {
                    Err("valid values for "@ + key + " include: install, update"@)
                },
            },
        )
    } else if has_prefix(key, "policy."@) && has_suffix(key, ".sources"@) {
        Some(
            Err(
                "Setting dependency policy sources is not supported by `composer config`. Use `composer policy add-source "@
                    + policy_name(key) + " url <https-url>` instead."@,
            ),
        )
    } else if policy_list_toggle(key) {
        Some(
            match single(values) {
                Err(m) => Err(m),
                Ok(word) => match policy_name_fault(key) {
                    Some(m) => Err(m),
                    None => set_at(path_below("config"@, key), truth_value(word)),
                },
            },
        )
    } else {
        None
    }
}

/// A setting under `config` with one value or a list of words. `number` is the
/// whole part of the number that the first word reads as.
pub open spec fn config_change(
    key: Seq<char>,
    values: Seq<Seq<char>>,
    number: Option<i64>,
) -> Result<ChangeView, Seq<char>> {
    let path = path_below("config"@, key);
    if bool_key(key) {
        from_single(values, path, |w: Seq<char>| truth_value(w))
    } else if integer_key(key) {
        from_single(
            values,
            seq!["config"@, key],
            |w: Seq<char>|
                match number {
                    Some(n) => Ok(integer(n)),
                    None => Err(invalid_value(w)),
                },
        )
    } else if string_key(key) {
        from_single(
            values,
            seq!["config"@, key],
            |w: Seq<char>|
                if nullable_key(key) && w == "null"@ {
                    Ok(JsonView::Null)
                } else {
                    Ok(JsonView::Text(w))
                },
        )
    } else if multi_key(key) {
        match list_fault(key, values) {
            Some(m) => Err(m),
            None => Ok(ChangeView::Assign(path, text_list(values))),
        }
    } else if plain_choice_key(key) || audit_choice_key(key) {
        from_single(values, path, |w: Seq<char>| choice(key, w))
    } else if has_prefix(key, "policy."@) && (has_suffix(key, ".block"@) || has_suffix(
        key,
        ".audit"@,
    )) {
        match single(values) {
            Err(m) => Err(m),
            Ok(w) => match policy_name_fault(key) {
                Some(m) => Err(m),
                None => set_at(
                    path,
                    if has_suffix(key, ".block"@) {
                        truth_value(w)
                    } else if w == "ignore"@ || w == "report"@ || w == "fail"@ {
                        Ok(JsonView::Text(w))
                    } else {
                        Err(choice_fault(key, w))
                    },
                ),
            },
        }
    } else {
        Err(unsupported(key))
    }
}

/// The change that a request to set `key` comes to.
pub open spec fn planned(
    key: Seq<char>,
    values: Seq<Seq<char>>,
    global: bool,
    json: bool,
    merge: bool,
    document: JsonView,
    number: Option<i64>,
    read: Option<JsonView>,
) -> Result<ChangeView, Seq<char>> {
    if global && (root_string(key) || root_list(key) || has_prefix(key, "extra."@)) {
        Err(
            "The "@ + key
                + " property can not be set in the global config.json file. Use `composer global config` to apply changes to the global composer.json"@,
        )
    } else if let Some(name) = repository_of(key) {
        if name.len() == 0 {
            Err(unsupported(key))
        } else {
            match described_repository(values, read) {
                Ok(v) => Ok(ChangeView::Repository(name, v)),
                Err(m) => Err(m),
            }
        }
    } else if let Some((kind, host)) = credentials_of(key) {
        match credentials(kind, values) {
            Ok(v) => Ok(ChangeView::Credentials(kind, host, v)),
            Err(m) => Err(m),
        }
    } else if let Some(r) = manifest_change(key, values, json, merge, document, read) {
        r
    } else if let Some(r) = named_change(key, values) {
        r
    } else if let Some(r) = list_change(key, values, json, merge, document, read) {
        r
    } else {
        config_change(key, values, number)
    }
}

// ---------------------------------------------------------------------------
// Planning
// ---------------------------------------------------------------------------
fn path_of<'a>(top: &'a str, key: &'a str) -> (r: Vec<&'a str>)
    ensures
        str_views(r@) == path_below(top@, key@),
{
    let parts = split(key, '.');
    let mut out: Vec<&'a str> = Vec::new();
    out.push(top);
    let mut i: usize = 0;
    let ghost all = path_below(top@, key@);
    assert(str_views(out@) =~= all.take(1));
    while i < parts.len()
        invariant
            i <= parts.len(),
            all == path_below(top@, key@),
            str_views(parts@) == pieces(key@, '.'),
            str_views(out@) == all.take(1 + i),
        decreases parts.len() - i,
    {
        proof {
            lemma_str_views_push(out@, parts@[i as int]);
            assert(str_views(parts@)[i as int] == parts@[i as int]@);
        }
        out.push(parts[i]);
        i += 1;
        assert(str_views(out@) =~= all.take(1 + i));
    }
    assert(str_views(parts@).len() == parts.len());
    assert(all.take(1 + i) =~= all);
    out
}

fn path1<'a>(a: &'a str) -> (r: Vec<&'a str>)
    ensures
        str_views(r@) == seq![a@],
{
    let mut out: Vec<&'a str> = Vec::new();
    out.push(a);
    assert(str_views(out@) =~= seq![a@]);
    out
}

fn path2<'a>(a: &'a str, b: &'a str) -> (r: Vec<&'a str>)
    ensures
        str_views(r@) == seq![a@, b@],
{
    let mut out: Vec<&'a str> = Vec::new();
    out.push(a);
    out.push(b);
    assert(str_views(out@) =~= seq![a@, b@]);
    out
}

fn path3<'a>(a: &'a str, b: &'a str, c: &'a str) -> (r: Vec<&'a str>)
    ensures
        str_views(r@) == seq![a@, b@, c@],
{
    let mut out: Vec<&'a str> = Vec::new();
    out.push(a);
    out.push(b);
    out.push(c);
    assert(str_views(out@) =~= seq![a@, b@, c@]);
    out
}

fn truth_json(value: &str) -> (r: Result<Json, Refusal>)
    ensures
        json_outcome(r) == truth_value(value@),
{
    match parse_bool(value) {
        Ok(b) => Ok(Json::Bool(b)),
        Err(e) => Err(e),
    }
}

fn change_at<'a>(path: Vec<&'a str>, value: Result<Json, Refusal>) -> (r: Result<
    Change<'a>,
    Refusal,
>)
    ensures
        plan_outcome(r) == set_at(str_views(path@), json_outcome(value)),
{
    match value {
        Ok(v) => Ok(Change::Assign(path, v)),
        Err(e) => Err(e),
    }
}

fn merge_at(document: &Json, path: &[&str], value: Json, key: &str, merge: bool) -> (r: Result<
    Json,
    Refusal,
>)
    ensures
        json_outcome(r) == perhaps_merged(document@, str_views(path@), value@, key@, merge),
{
    if merge {
        if let Some(current) = nested(document, path) {
            return merge_json_values(current, &value, key);
        }
    }
    Ok(value)
}

fn plan_manifest<'a>(
    key: &'a str,
    values: &[String],
    json: bool,
    merge: bool,
    document: &Json,
    read: Option<Json>,
) -> (r: Option<Result<Change<'a>, Refusal>>)
    ensures
        r.is_some() == manifest_change(
            key@,
            views(values@),
            json,
            merge,
            document@,
            read_view(read),
        ).is_some(),
        r matches Some(c) ==> Some(plan_outcome(c)) == manifest_change(
            key@,
            views(values@),
            json,
            merge,
            document@,
            read_view(read),
        ),
{
    if is_root_string_property(key) {
        if let Err(e) = require_one(values) {
            return Some(Err(e));
        }
        return Some(Ok(Change::Assign(path1(key), text(values[0].as_str()))));
    }
    if is_root_list_property(key) {
        return Some(Ok(Change::Assign(path1(key), text_array(values))));
    }
    if str_equal(key, "minimum-stability") {
        if let Err(e) = require_one(values) {
            return Some(Err(e));
        }
        let word = to_ascii_lowercase(values[0].as_str());
        let w = word.as_str();
        if !(str_equal(w, "dev") || str_equal(w, "alpha") || str_equal(w, "beta") || str_equal(
            w,
            "rc",
        ) || str_equal(w, "stable")) {
            return Some(refuse_about("\"", values[0].as_str(), "\" is an invalid value"));
        }
        return Some(Ok(Change::Assign(path1(key), Json::Text(word))));
    }
    if str_equal(key, "prefer-stable") {
        if let Err(e) = require_one(values) {
            return Some(Err(e));
        }
        return Some(change_at(path1(key), truth_json(values[0].as_str())));
    }
    if let Some(path) = strip_prefix(key, "scripts.") {
        let value = if values.len() == 1 {
            text(values[0].as_str())
        } else {
            text_array(values)
        };
        return Some(Ok(Change::Assign(path2("scripts", path), value)));
    }
    if let Some(path) = strip_prefix(key, "suggest.") {
        return Some(Ok(Change::Assign(path2("suggest", path), Json::Text(join(values, " ")))));
    }
    if let Some(path) = strip_prefix(key, "extra.") {
        let given = if json {
            match parse_json_argument(values, read) {
                Ok(v) => v,
                Err(e) => {
                    return Some(Err(e));
                },
            }
        } else if values.len() > 0 {
            text(values[0].as_str())
        } else {
            Json::Text(String::new())
        };
        let full = path_of("extra", path);
        let value = merge_at(document, full.as_slice(), given, key, merge);
        return Some(change_at(full, value));
    }
    None
}

fn plan_named<'a>(key: &'a str, values: &[String]) -> (r: Option<Result<Change<'a>, Refusal>>)
    ensures
        r.is_some() == named_change(key@, views(values@)).is_some(),
        r matches Some(c) ==> Some(plan_outcome(c)) == named_change(key@, views(values@)),
{
    if let Some(platform) = strip_prefix(key, "platform.") {
        if let Err(e) = require_one(values) {
            return Some(Err(e));
        }
        let word = values[0].as_str();
        let off = str_equal(word, "false");
        if str_equal(to_ascii_lowercase(platform).as_str(), "php") && off {
            return Some(refuse("config.platform.php cannot be disabled"));
        }
        let value = if off {
            Json::Bool(false)
        } else {
            text(word)
        };
        return Some(Ok(Change::Assign(path3("config", "platform", platform), value)));
    }
    if let Some(pattern) = strip_prefix(key, "preferred-install.") {
        if let Err(e) = require_one(values) {
            return Some(Err(e));
        }
        let w = values[0].as_str();
        if !(str_equal(w, "auto") || str_equal(w, "source") || str_equal(w, "dist")) {
            let behind = "\" is an invalid value for ".to_owned().concat(key);
            return Some(refuse_about("\"", w, behind.as_str()));
        }
        return Some(Ok(Change::Assign(path3("config", "preferred-install", pattern), text(w))));
    }
    if let Some(plugin) = strip_prefix(key, "allow-plugins.") {
        if let Err(e) = require_one(values) {
            return Some(Err(e));
        }
        return Some(
            change_at(path3("config", "allow-plugins", plugin), truth_json(values[0].as_str())),
        );
    }
    None
}

fn is_reach_list(value: &Json) -> (r: bool)
    ensures
        r == reach_list(value@),
{
    match value {
        Json::Array(items) => {
            proof {
                lemma_array_view(*items);
            }
            let mut i: usize = 0;
            while i < items.len()
                invariant
                    i <= items.len(),
                    value@ == JsonView::Array(items_view(items@)),
                    forall|k: int|
                        0 <= k < i ==> ((#[trigger] items_view(items@)[k]) matches JsonView::Text(
                            t,
                        ) && reach_word(t)),
                decreases items.len() - i,
            {
                assert(items_view(items@)[i as int] == items@[i as int]@);
                let fits = match &items[i] {
                    Json::Text(t) => str_equal(t.as_str(), "install") || str_equal(
                        t.as_str(),
                        "update",
                    ),
                    _ => false,
                };
                if !fits {
                    return false;
                }
                i += 1;
            }
            true
        },
        _ => false,
    }
}

fn plan_list<'a>(
    key: &'a str,
    values: &[String],
    json: bool,
    merge: bool,
    document: &Json,
    read: Option<Json>,
) -> (r: Option<Result<Change<'a>, Refusal>>)
    ensures
        r.is_some() == list_change(
            key@,
            views(values@),
            json,
            merge,
            document@,
            read_view(read),
        ).is_some(),
        r matches Some(c) ==> Some(plan_outcome(c)) == list_change(
            key@,
            views(values@),
            json,
            merge,
            document@,
            read_view(read),
        ),
{
    if is_json_merge_key(key) || is_policy_ignore_key(key) {
        if is_policy_ignore_key(key) {
            if let Err(e) = validate_policy_name(key) {
                return Some(Err(e));
            }
        }
        let given = if json {
            match parse_json_argument(values, read) {
                Ok(v) => v,
                Err(e) => {
                    return Some(Err(e));
                },
            }
        } else {
            text_array(values)
        };
        if !given.is_array() && !given.is_object() {
            let message = "Expected an array or object for ".to_owned().concat(key);
            return Some(Err(Refusal { message }));
        }
        let path = path_of("config", key);
        let value = merge_at(document, path.as_slice(), given, key, merge);
        return Some(change_at(path, value));
    }
    if str_equal(key, "policy.ignore-unreachable") && (json || (values.len() > 0 && (str_equal(
        values[0].as_str(),
        "install",
    ) || str_equal(values[0].as_str(), "update")))) {
        let given = if json {
            match parse_json_argument(values, read) {
                Ok(v) => v,
                Err(e) => {
                    return Some(Err(e));
                },
            }
        } else {
            text_array(values)
        };
        if !is_reach_list(&given) {
            return Some(
                refuse_about("valid values for ", key, " include: install, update"),
            );
        }
        return Some(Ok(Change::Assign(path3("config", "policy", "ignore-unreachable"), given)));
    }
    if starts_with(key, "policy.") && ends_with(key, ".sources") {
        return Some(
            refuse_about(
                "Setting dependency policy sources is not supported by `composer config`. Use `composer policy add-source ",
                policy_list(key),
                " url <https-url>` instead.",
            ),
        );
    }
    if is_policy_list_toggle(key) {
        if let Err(e) = require_one(values) {
            return Some(Err(e));
        }
        if let Err(e) = validate_policy_name(key) {
            return Some(Err(e));
        }
        return Some(change_at(path_of("config", key), truth_json(values[0].as_str())));
    }
    None
}

fn plan_config<'a>(key: &'a str, values: &[String], number: Option<i64>) -> (r: Result<
    Change<'a>,
    Refusal,
>)
    ensures
        plan_outcome(r) == config_change(key@, views(values@), number),
{
    if is_bool_config_key(key) {
        if let Err(e) = require_one(values) {
            return Err(e);
        }
        return change_at(path_of("config", key), truth_json(values[0].as_str()));
    }
    if is_integer_config_key(key) {
        if let Err(e) = require_one(values) {
            return Err(e);
        }
        return match number {
            Some(n) => Ok(
                Change::Assign(
                    path2("config", key),
                    if n >= 0 {
                        Json::Number(Number::Unsigned(n as u64))
                    } else {
                        Json::Number(Number::Negative(n))
                    },
                ),
            ),
            None => refuse_about("\"", values[0].as_str(), "\" is an invalid value"),
        };
    }
    if is_string_config_key(key) {
        if let Err(e) = require_one(values) {
            return Err(e);
        }
        let word = values[0].as_str();
        let value = if is_nullable_key(key) && str_equal(word, "null") {
            Json::Null
        } else {
            text(word)
        };
        return Ok(Change::Assign(path2("config", key), value));
    }
    if is_multi_config_key(key) {
        if let Err(e) = validate_multi(key, values) {
            return Err(e);
        }
        return Ok(Change::Assign(path_of("config", key), text_array(values)));
    }
    if is_plain_choice_key(key) || is_audit_choice_key(key) {
        if let Err(e) = require_one(values) {
            return Err(e);
        }
        return change_at(
            path_of("config", key),
            normalize_enum_or_bool(key, values[0].as_str()),
        );
    }
    if starts_with(key, "policy.") && (ends_with(key, ".block") || ends_with(key, ".audit")) {
        if let Err(e) = require_one(values) {
            return Err(e);
        }
        if let Err(e) = validate_policy_name(key) {
            return Err(e);
        }
        let w = values[0].as_str();
        let value = if ends_with(key, ".block") {
            truth_json(w)
        } else if str_equal(w, "ignore") || str_equal(w, "report") || str_equal(w, "fail") {
            Ok(text(w))
        } else {
            let behind = "\" is an invalid value for ".to_owned().concat(key);
            refuse_about("\"", w, behind.as_str())
        };
        return change_at(path_of("config", key), value);
    }
    refuse_about("Setting ", key, " does not exist or is not supported by this command")
}

/// The change that a request to set `key` comes to, given what a single word reads
/// as JSON (`read`) and the whole part of the number it reads as (`number`).
pub fn plan_setting<'a>(
    key: &'a str,
    args: &ConfigArgs,
    document: &Json,
    number: Option<i64>,
    read: Option<Json>,
) -> (r: Result<Change<'a>, Refusal>)
    ensures
        plan_outcome(r) == planned(
            key@,
            views(args.setting_value@),
            args.global,
            args.json,
            args.merge,
            document@,
            number,
            read_view(read),
        ),
{
    let values = args.setting_value.as_slice();
    if args.global && (is_root_string_property(key) || is_root_list_property(key) || starts_with(
        key,
        "extra.",
    )) {
        return refuse_about(
            "The ",
            key,
            " property can not be set in the global config.json file. Use `composer global config` to apply changes to the global composer.json",
        );
    }
    if let Some(name) = repository_key(key) {
        if name.is_empty() {
            return refuse_about(
                "Setting ",
                key,
                " does not exist or is not supported by this command",
            );
        }
        return match repository_value(values, read) {
            Ok(v) => Ok(Change::Repository(name, v)),
            Err(e) => Err(e),
        };
    }
    if let Some((kind, host)) = auth_key(key) {
        return match normalize_auth(kind, values) {
            Ok(v) => Ok(Change::Credentials(kind, host, v)),
            Err(e) => Err(e),
        };
    }
    let again = match &read {
        Some(j) => Some(copy(j)),
        None => None,
    };
    assert(read_view(again) == read_view(read));
    if let Some(r) = plan_manifest(key, values, args.json, args.merge, document, again) {
        return r;
    }
    if let Some(r) = plan_named(key, values) {
        return r;
    }
    if let Some(r) = plan_list(key, values, args.json, args.merge, document, read) {
        return r;
    }
    plan_config(key, values, number)
}


// ---------------------------------------------------------------------------
// Carrying a change out
// ---------------------------------------------------------------------------
/// The manifest and the credentials after a change.
pub open spec fn changed(
    change: ChangeView,
    document: JsonView,
    auth: JsonView,
    append: bool,
) -> (JsonView, JsonView) {
    match change {
        ChangeView::Assign(path, v) => (with_path(document, path, v), auth),
        ChangeView::Repository(name, v) => (with_repository(document, name, v, append), auth),
        ChangeView::Credentials(kind, host, v) => (
            without_path(document, seq!["config"@, kind, host], true),
            with_path(auth, seq![kind, host], v),
        ),
    }
}

/// Sets a setting in the manifest `document`, or credentials in `auth`: then the
/// result is `true`, and the manifest loses the ones it had for that host. A
/// request that is turned down changes nothing.
pub fn set_setting(
    key: &str,
    args: &ConfigArgs,
    document: &mut Json,
    auth: &mut Json,
    number: Option<i64>,
) -> (r: Result<bool, Refusal>)
    requires
        old(document)@ is Object,
    ensures
        ({
            let plan = planned(
                key@,
                views(args.setting_value@),
                args.global,
                args.json,
                args.merge,
                old(document)@,
                number,
                word_read(views(args.setting_value@)),
            );
            match plan {
                Ok(change) => {
                    &&& r == Ok::<bool, Refusal>(change is Credentials)
                    &&& (final(document)@, final(auth)@) == changed(
                        change,
                        old(document)@,
                        old(auth)@,
                        args.append,
                    )
                },
                Err(m) => {
                    &&& r matches Err(e) && e@ == m
                    &&& final(document)@ == old(document)@
                    &&& final(auth)@ == old(auth)@
                },
            }
        }),
{
    let read = read_word(args.setting_value.as_slice());
    match plan_setting(key, args, document, number, read) {
        Err(e) => Err(e),
        Ok(Change::Assign(path, value)) => {
            set_nested(document, path.as_slice(), value);
            Ok(false)
        },
        Ok(Change::Repository(name, value)) => {
            set_repository(document, name, value, args.append);
            Ok(false)
        },
        Ok(Change::Credentials(kind, host, value)) => {
            set_nested(auth, path2(kind, host).as_slice(), value);
            remove_nested(document, path3("config", kind, host).as_slice(), true);
            Ok(true)
        },
    }
}

/// The manifest and the credentials without a setting.
pub open spec fn unset(key: Seq<char>, document: JsonView, auth: JsonView) -> (
    JsonView,
    JsonView,
) {
    if let Some(name) = repository_of(key) {
        (
            if name.len() == 0 {
                without_path(document, seq!["repositories"@], false)
            } else {
                without_named_repository(document, name)
            },
            auth,
        )
    } else if let Some((kind, host)) = credentials_of(key) {
        (
            without_path(document, seq!["config"@, kind, host], true),
            without_path(auth, seq![kind, host], false),
        )
    } else if let Some(rest) = without_prefix(key, "policy."@) {
        (
            match at_path(document, seq!["config"@, "policy"@]) {
                Some(policy) => with_path(
                    document,
                    seq!["config"@, "policy"@],
                    without_path(policy, pieces(rest, '.'), true),
                ),
                None => document,
            },
            auth,
        )
    } else if config_key(key) || below_config(key) {
        (without_path(document, path_below("config"@, key), false), auth)
    } else {
        (without_path(document, pieces(key, '.'), false), auth)
    }
}

/// Keys besides the plain settings that stand under `config`.
pub open spec fn below_config(key: Seq<char>) -> bool {
    has_prefix(key, "platform."@) || has_prefix(key, "preferred-install."@) || has_prefix(
        key,
        "allow-plugins."@,
    ) || key == "platform"@ || key == "audit"@ || key == "policy"@ || has_prefix(key, "audit."@)
}

/// Takes a setting out of the manifest `document`, or credentials out of `auth`:
/// then the result is `true`.
pub fn unset_setting(key: &str, document: &mut Json, auth: &mut Json) -> (r: bool)
    ensures
        (final(document)@, final(auth)@) == unset(key@, old(document)@, old(auth)@),
        r == (repository_of(key@) is None && credentials_of(key@) is Some),
{
    if let Some(name) = repository_key(key) {
        if name.is_empty() {
            remove_nested(document, path1("repositories").as_slice(), false);
        } else {
            remove_repository(document, name);
        }
        return false;
    }
    if let Some((kind, host)) = auth_key(key) {
        remove_nested(auth, path2(kind, host).as_slice(), false);
        remove_nested(document, path3("config", kind, host).as_slice(), true);
        return true;
    }
    if let Some(rest) = strip_prefix(key, "policy.") {
        let place = path2("config", "policy");
        let present = match nested(document, place.as_slice()) {
            Some(policy) => Some(copy(policy)),
            None => None,
        };
        if let Some(policy) = present {
            let mut policy = policy;
            remove_nested(&mut policy, split(rest, '.').as_slice(), true);
            set_nested(document, place.as_slice(), policy);
        }
    } else if is_config_key(key) || starts_with(key, "platform.") || starts_with(
        key,
        "preferred-install.",
    ) || starts_with(key, "allow-plugins.") || str_equal(key, "platform") || str_equal(key, "audit")
        || str_equal(key, "policy") || starts_with(key, "audit.") {
        remove_nested(document, path_of("config", key).as_slice(), false);
    } else {
        remove_nested(document, split(key, '.').as_slice(), false);
    }
    false
}

} // verus!
