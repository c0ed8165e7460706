//! The values that a setting can take, read from the words on the command line.
use vstd::prelude::*;
use vstd::string::*;

use crate::error::{outcome, refuse, refuse_about, Refusal};
use crate::json::{
    copy, copy_entries, entries_view, find_key, items_view, key_at, lemma_array_view,
    lemma_entries_push, lemma_items_push, lemma_object_view, text, Entries, Json, JsonView,
};
use crate::json_text::{compact, parse, parsed, print};
use crate::settings::keys::{is_audit_choice_key, audit_choice_key};
use crate::text::{
    decimal, ends_with, halves, has_suffix, number, split_once, str_equal, trim, trimmed, views,
};

verus! {

/// What a step that yields a JSON value comes to.
pub open spec fn json_outcome(r: Result<Json, Refusal>) -> Result<JsonView, Seq<char>> {
    match r {
        Ok(j) => Ok(j@),
        Err(e) => Err(e@),
    }
}

pub open spec fn one_value_message() -> Seq<char> {
    "You can only pass one value. Example: php composer.phar config process-timeout 300"@
}

/// Exactly one value is asked for.
pub open spec fn single(values: Seq<Seq<char>>) -> Result<Seq<char>, Seq<char>> {
    if values.len() == 1 {
        Ok(values[0])
    } else {
        Err(one_value_message())
    }
}

/// Turns anything but a single value down.
pub fn require_one(values: &[String]) -> (r: Result<(), Refusal>)
    ensures
        r.is_ok() == single(views(values@)).is_ok(),
        r matches Err(e) ==> Err::<Seq<char>, _>(e@) == single(views(values@)),
{
    if values.len() != 1 {
        return refuse(
            "You can only pass one value. Example: php composer.phar config process-timeout 300",
        );
    }
    Ok(())
}

/// The truth value that a word stands for.
pub open spec fn truth(value: Seq<char>) -> Result<bool, Seq<char>> {
    if value == "true"@ || value == "1"@ {
        Ok(true)
    } else if value == "false"@ || value == "0"@ {
        Ok(false)
    } else {
        Err("\""@ + value + "\" is an invalid value, expected a boolean"@)
    }
}

/// The truth value that a word stands for.
pub fn parse_bool(value: &str) -> (r: Result<bool, Refusal>)
    ensures
        outcome(r) == truth(value@),
{
    if str_equal(value, "true") || str_equal(value, "1") {
        Ok(true)
    } else if str_equal(value, "false") || str_equal(value, "0") {
        Ok(false)
    } else {
        refuse_about("\"", value, "\" is an invalid value, expected a boolean")
    }
}

pub open spec fn choice_fault(key: Seq<char>, value: Seq<char>) -> Seq<char> {
    "\""@ + value + ("\" is an invalid value for "@ + key)
}

/// Turns a value down that is not among the choices.
pub fn validate_enum(key: &str, value: &str, choices: &[&str]) -> (r: Result<(), Refusal>)
    ensures
        r.is_ok() == exists|i: int| 0 <= i < choices.len() && (#[trigger] choices@[i])@ == value@,
        r matches Err(e) ==> e@ == choice_fault(key@, value@),
{
    let mut i: usize = 0;
    while i < choices.len()
        invariant
            i <= choices.len(),
            forall|k: int| 0 <= k < i ==> (#[trigger] choices@[k])@ != value@,
        decreases choices.len() - i,
    {
        if str_equal(choices[i], value) {
            return Ok(());
        }
        i += 1;
    }
    let behind = "\" is an invalid value for ".to_owned().concat(key);
    refuse_about("\"", value, behind.as_str())
}

/// The values that a key with fixed choices can take.
pub open spec fn choice_allowed(key: Seq<char>, value: Seq<char>) -> bool {
    if key == "preferred-install"@ {
        value == "auto"@ || value == "source"@ || value == "dist"@
    } else if key == "gitlab-protocol"@ {
        value == "git"@ || value == "http"@ || value == "https"@
    } else if key == "store-auths"@ || key == "use-parent-dir"@ {
        value == "true"@ || value == "false"@ || value == "prompt"@
    } else if key == "discard-changes"@ {
        value == "stash"@ || value == "true"@ || value == "false"@ || value == "1"@ || value
            == "0"@
    } else if key == "bin-compat"@ {
        value == "auto"@ || value == "full"@ || value == "proxy"@ || value == "symlink"@
    } else if key == "platform-check"@ {
        value == "php-only"@ || value == "true"@ || value == "false"@ || value == "1"@ || value
            == "0"@
    } else if key == "bump-after-update"@ {
        value == "dev"@ || value == "no-dev"@ || value == "true"@ || value == "false"@ || value
            == "1"@ || value == "0"@
    } else if key == "policy.malware.block-scope"@ {
        value == "all"@ || value == "update"@ || value == "install"@
    } else if audit_choice_key(key) {
        value == "ignore"@ || value == "report"@ || value == "fail"@
    } else {
        false
    }
}

/// Whether a key with fixed choices can take the value.
pub fn is_choice(key: &str, value: &str) -> (r: bool)
    ensures
        r == choice_allowed(key@, value@),
{
    if str_equal(key, "preferred-install") {
        str_equal(value, "auto") || str_equal(value, "source") || str_equal(value, "dist")
    } else if str_equal(key, "gitlab-protocol") {
        str_equal(value, "git") || str_equal(value, "http") || str_equal(value, "https")
    } else if str_equal(key, "store-auths") || str_equal(key, "use-parent-dir") {
        str_equal(value, "true") || str_equal(value, "false") || str_equal(value, "prompt")
    } else if str_equal(key, "discard-changes") {
        str_equal(value, "stash") || str_equal(value, "true") || str_equal(value, "false")
            || str_equal(value, "1") || str_equal(value, "0")
    } else if str_equal(key, "bin-compat") {
        str_equal(value, "auto") || str_equal(value, "full") || str_equal(value, "proxy")
            || str_equal(value, "symlink")
    } else if str_equal(key, "platform-check") {
        str_equal(value, "php-only") || str_equal(value, "true") || str_equal(value, "false")
            || str_equal(value, "1") || str_equal(value, "0")
    } else if str_equal(key, "bump-after-update") {
        str_equal(value, "dev") || str_equal(value, "no-dev") || str_equal(value, "true")
            || str_equal(value, "false") || str_equal(value, "1") || str_equal(value, "0")
    } else if str_equal(key, "policy.malware.block-scope") {
        str_equal(value, "all") || str_equal(value, "update") || str_equal(value, "install")
    } else if is_audit_choice_key(key) {
        str_equal(value, "ignore") || str_equal(value, "report") || str_equal(value, "fail")
    } else {
        false
    }
}

/// What a key with fixed choices takes for a word: a truth value where the word is
/// one, the word itself where not.
pub open spec fn choice(key: Seq<char>, value: Seq<char>) -> Result<JsonView, Seq<char>> {
    if !choice_allowed(key, value) {
        Err(choice_fault(key, value))
    } else {
        match truth(value) {
            Ok(b) => Ok(JsonView::Bool(b)),
            Err(_) => Ok(JsonView::Text(value)),
        }
    }
}

/// What a key with fixed choices takes for a word.
pub fn normalize_enum_or_bool(key: &str, value: &str) -> (r: Result<Json, Refusal>)
    ensures
        json_outcome(r) == choice(key@, value@),
{
    if !is_choice(key, value) {
        let behind = "\" is an invalid value for ".to_owned().concat(key);
        return refuse_about("\"", value, behind.as_str());
    }
    match parse_bool(value) {
        Ok(b) => Ok(Json::Bool(b)),
        Err(_) => Ok(text(value)),
    }
}

/// The words as a list of texts.
pub open spec fn text_list(values: Seq<Seq<char>>) -> JsonView {
    JsonView::Array(values.map_values(|v: Seq<char>| JsonView::Text(v)))
}

/// The words as a list of texts.
pub fn text_array(values: &[String]) -> (r: Json)
    ensures
        r@ == text_list(views(values@)),
{
    broadcast use lemma_array_view;

    let mut out: Vec<Json> = Vec::new();
    let mut i: usize = 0;
    while i < values.len()
        invariant
            i <= values.len(),
            out.len() == i,
            forall|k: int| 0 <= k < i ==> (#[trigger] out@[k])@ == JsonView::Text(values@[k]@),
        decreases values.len() - i,
    {
        out.push(Json::Text(values[i].clone()));
        i += 1;
    }
    assert(items_view(out@) =~= text_list(views(values@))->Array_0);
    Json::Array(out)
}

pub open spec fn protocol(value: Seq<char>) -> bool {
    value == "git"@ || value == "https"@ || value == "ssh"@
}

pub open spec fn severity(value: Seq<char>) -> bool {
    value == "low"@ || value == "medium"@ || value == "high"@ || value == "critical"@
}

/// Why a list of values does not suit a key, where it does not.
pub open spec fn list_fault(key: Seq<char>, values: Seq<Seq<char>>) -> Option<Seq<char>> {
    if key == "github-protocols"@ && exists|i: int|
        0 <= i < values.len() && !protocol(#[trigger] values[i]) {
        Some(
            compact(text_list(values))
                + " is an invalid value (valid protocols include: git, https, ssh)"@,
        )
    } else if has_suffix(key, "ignore-severity"@) && exists|i: int|
        0 <= i < values.len() && !severity(#[trigger] values[i]) {
        Some(
            compact(text_list(values))
                + " is an invalid value (valid severities include: low, medium, high, critical)"@,
        )
    } else {
        None
    }
}

/// Turns a list of values down that does not suit its key.
pub fn validate_multi(key: &str, values: &[String]) -> (r: Result<(), Refusal>)
    ensures
        r.is_ok() == list_fault(key@, views(values@)).is_none(),
        r matches Err(e) ==> Some(e@) == list_fault(key@, views(values@)),
{
    let ghost words = views(values@);
    let mut protocols = true;
    let mut severities = true;
    let mut i: usize = 0;
    while i < values.len()
        invariant
            i <= values.len(),
            words == views(values@),
            protocols == forall|k: int| 0 <= k < i ==> protocol(#[trigger] words[k]),
            severities == forall|k: int| 0 <= k < i ==> severity(#[trigger] words[k]),
        decreases values.len() - i,
    {
        let v = values[i].as_str();
        assert(words[i as int] == v@);
        protocols = protocols && (str_equal(v, "git") || str_equal(v, "https") || str_equal(
            v,
            "ssh",
        ));
        severities = severities && (str_equal(v, "low") || str_equal(v, "medium") || str_equal(
            v,
            "high",
        ) || str_equal(v, "critical"));
        i += 1;
    }
    if str_equal(key, "github-protocols") && !protocols {
        let listed = print(&text_array(values));
        return Err(
            Refusal {
                message: listed.concat(
                    " is an invalid value (valid protocols include: git, https, ssh)",
                ),
            },
        );
    }
    if ends_with(key, "ignore-severity") && !severities {
        let listed = print(&text_array(values));
        return Err(
            Refusal {
                message: listed.concat(
                    " is an invalid value (valid severities include: low, medium, high, critical)",
                ),
            },
        );
    }
    Ok(())
}

/// The JSON value that the only word stands for; `read` is what the word reads as.
pub open spec fn json_argument(
    values: Seq<Seq<char>>,
    read: Option<JsonView>,
) -> Result<JsonView, Seq<char>> {
    match single(values) {
        Err(m) => Err(m),
        Ok(_) => match read {
            Some(v) => Ok(v),
            None => Err("Setting value is not valid JSON"@),
        },
    }
}

/// The JSON value that the only word stands for, given what the word reads as.
pub fn parse_json_argument(values: &[String], read: Option<Json>) -> (r: Result<Json, Refusal>)
    ensures
        json_outcome(r) == json_argument(views(values@), read_view(read)),
{
    if let Err(e) = require_one(values) {
        return Err(e);
    }
    match read {
        Some(v) => Ok(v),
        None => refuse("Setting value is not valid JSON"),
    }
}

/// What a word reads as.
pub open spec fn read_view(read: Option<Json>) -> Option<JsonView> {
    match read {
        Some(j) => Some(j@),
        None => None,
    }
}

/// What a single word reads as, where it is JSON.
pub open spec fn word_read(values: Seq<Seq<char>>) -> Option<JsonView> {
    if values.len() == 1 {
        parsed(values[0])
    } else {
        None
    }
}

/// Reads a single word as JSON.
pub fn read_word(values: &[String]) -> (r: Option<Json>)
    ensures
        read_view(r) == word_read(views(values@)),
        r matches Some(j) ==> j@.wf(),
{
    if values.len() == 1 {
        parse(values[0].as_str())
    } else {
        None
    }
}

/// The entries `o`, followed by the first `n` of `a` whose keys are not there yet.
pub open spec fn completed(o: Entries, a: Entries, n: int) -> Entries
    decreases n,
{
    if n <= 0 || n > a.len() {
        o
    } else {
        let so_far = completed(o, a, n - 1);
        if key_at(so_far, a[n - 1].0) < so_far.len() {
            so_far
        } else {
            so_far.push(a[n - 1])
        }
    }
}

/// What a setting holds after a value was merged into it: lists one after the
/// other, objects with the new entries first; other values are replaced.
pub open spec fn merge_outcome(
    current: JsonView,
    incoming: JsonView,
    key: Seq<char>,
) -> Result<JsonView, Seq<char>> {
    match (current, incoming) {
        (JsonView::Array(a), JsonView::Array(b)) => Ok(JsonView::Array(a + b)),
        (JsonView::Object(a), JsonView::Object(b)) => Ok(
            JsonView::Object(completed(b, a, a.len() as int)),
        ),
        (JsonView::Array(_), JsonView::Object(_)) => Err(
            "Cannot merge array and object for "@ + key,
        ),
        (JsonView::Object(_), JsonView::Array(_)) => Err(
            "Cannot merge array and object for "@ + key,
        ),
        _ => Ok(incoming),
    }
}

/// Merges a value into a setting.
pub fn merge_json_values(current: &Json, incoming: &Json, key: &str) -> (r: Result<Json, Refusal>)
    ensures
        json_outcome(r) == merge_outcome(current@, incoming@, key@),
{
    broadcast use {lemma_array_view, lemma_object_view};

    match (current, incoming) {
        (Json::Array(a), Json::Array(b)) => {
            let mut out: Vec<Json> = Vec::new();
            let ghost all = items_view(a@) + items_view(b@);
            let mut i: usize = 0;
            while i < a.len()
                invariant
                    i <= a.len(),
                    all == items_view(a@) + items_view(b@),
                    items_view(out@) == all.take(i as int),
                decreases a.len() - i,
            {
                let one = copy(&a[i]);
                proof {
                    lemma_items_push(out@, one);
                }
                out.push(one);
                i += 1;
                assert(items_view(out@) =~= all.take(i as int));
            }
            let mut k: usize = 0;
            while k < b.len()
                invariant
                    k <= b.len(),
                    all == items_view(a@) + items_view(b@),
                    items_view(out@) == all.take(a.len() + k),
                decreases b.len() - k,
            {
                let one = copy(&b[k]);
                proof {
                    lemma_items_push(out@, one);
                }
                out.push(one);
                k += 1;
                assert(items_view(out@) =~= all.take(a.len() + k));
            }
            assert(all.take(a.len() + k) =~= all);
            Ok(Json::Array(out))
        },
        (Json::Object(a), Json::Object(b)) => {
            let mut out = copy_entries(b);
            let ghost o = entries_view(b@);
            let ghost mine = entries_view(a@);
            let mut i: usize = 0;
            while i < a.len()
                invariant
                    i <= a.len(),
                    mine == entries_view(a@),
                    entries_view(out@) == completed(o, mine, i as int),
                decreases a.len() - i,
            {
                let at: usize = find_key(&out, a[i].0.as_str());
                if at == out.len() {
                    let one = (a[i].0.clone(), copy(&a[i].1));
                    proof {
                        lemma_entries_push(out@, one);
                    }
                    out.push(one);
                }
                i += 1;
            }
            Ok(Json::Object(out))
        },
        (Json::Array(_), Json::Object(_)) => {
            let message = "Cannot merge array and object for ".to_owned().concat(key);
            Err(Refusal { message })
        },
        (Json::Object(_), Json::Array(_)) => {
            let message = "Cannot merge array and object for ".to_owned().concat(key);
            Err(Refusal { message })
        },
        _ => Ok(copy(incoming)),
    }
}

/// An object with two texts.
pub open spec fn text_pair(
    k1: Seq<char>,
    v1: Seq<char>,
    k2: Seq<char>,
    v2: Seq<char>,
) -> JsonView {
    JsonView::Object(seq![(k1, JsonView::Text(v1)), (k2, JsonView::Text(v2))])
}

/// An object with two texts.
pub fn pair_of_texts(k1: &str, v1: &str, k2: &str, v2: &str) -> (r: Json)
    ensures
        r@ == text_pair(k1@, v1@, k2@, v2@),
{
    broadcast use lemma_object_view;

    let mut out: Vec<(String, Json)> = Vec::new();
    out.push((k1.to_owned(), text(v1)));
    out.push((k2.to_owned(), text(v2)));
    assert(entries_view(out@) =~= text_pair(k1@, v1@, k2@, v2@)->Object_0);
    Json::Object(out)
}

pub open spec fn repository_usage() -> Seq<char> {
    "You must pass the type and a url. Example: php composer.phar config repositories.foo vcs https://bar.com"@
}

/// The repository that the words describe; `read` is what a single word reads as.
pub open spec fn described_repository(
    values: Seq<Seq<char>>,
    read: Option<JsonView>,
) -> Result<JsonView, Seq<char>> {
    if values.len() == 1 {
        if values[0] == "false"@ || values[0] == "0"@ {
            Ok(JsonView::Bool(false))
        } else if values[0] == "true"@ || values[0] == "1"@ {
            Err(repository_usage())
        } else {
            match read {
                Some(v) => Ok(v),
                None => Err("Repository value is not valid JSON"@),
            }
        }
    } else if values.len() == 2 {
        Ok(text_pair("type"@, values[0], "url"@, values[1]))
    } else {
        Err(repository_usage())
    }
}

/// The repository that the words describe: switched off, given as JSON, or by its
/// type and address.
pub fn repository_value(values: &[String], read: Option<Json>) -> (r: Result<Json, Refusal>)
    ensures
        json_outcome(r) == described_repository(views(values@), read_view(read)),
{
    if values.len() == 1 {
        let v = values[0].as_str();
        if str_equal(v, "false") || str_equal(v, "0") {
            return Ok(Json::Bool(false));
        }
        if str_equal(v, "true") || str_equal(v, "1") {
            return refuse(
                "You must pass the type and a url. Example: php composer.phar config repositories.foo vcs https://bar.com",
            );
        }
        match read {
            Some(j) => Ok(j),
            None => refuse("Repository value is not valid JSON"),
        }
    } else if values.len() == 2 {
        Ok(pair_of_texts("type", values[0].as_str(), "url", values[1].as_str()))
    } else {
        refuse(
            "You must pass the type and a url. Example: php composer.phar config repositories.foo vcs https://bar.com",
        )
    }
}

/// A header line has a name and, behind a colon, a value that is not blank.
pub open spec fn header(line: Seq<char>) -> bool {
    match halves(line, ':') {
        Some((name, value)) => name.len() > 0 && trimmed(value).len() > 0,
        None => false,
    }
}

/// The first line that is no header.
pub open spec fn first_bad_header(lines: Seq<Seq<char>>) -> Option<Seq<char>>
    decreases lines.len(),
{
    if lines.len() == 0 {
        None
    } else if !header(lines[0]) {
        Some(lines[0])
    } else {
        first_bad_header(lines.drop_first())
    }
}

/// Two words stored under two names; else a complaint that tells how many came.
pub open spec fn two_words(
    k1: Seq<char>,
    k2: Seq<char>,
    complaint: Seq<char>,
    values: Seq<Seq<char>>,
) -> Result<JsonView, Seq<char>> {
    if values.len() == 2 {
        Ok(text_pair(k1, values[0], k2, values[1]))
    } else {
        Err(complaint + decimal(values.len()))
    }
}

/// What is stored for credentials of a kind, given the words on the command line.
pub open spec fn credentials(
    kind: Seq<char>,
    values: Seq<Seq<char>>,
) -> Result<JsonView, Seq<char>> {
    if kind == "bitbucket-oauth"@ {
        two_words(
            "consumer-key"@,
            "consumer-secret"@,
            "Expected two arguments (consumer-key, consumer-secret), got "@,
            values,
        )
    } else if kind == "http-basic"@ {
        two_words(
            "username"@,
            "password"@,
            "Expected two arguments (username, password), got "@,
            values,
        )
    } else if kind == "forgejo-token"@ {
        two_words(
            "username"@,
            "token"@,
            "Expected two arguments (username, access token), got "@,
            values,
        )
    } else if kind == "gitlab-token"@ && values.len() == 2 {
        Ok(text_pair("username"@, values[0], "token"@, values[1]))
    } else if kind == "custom-headers"@ {
        if values.len() == 0 {
            Err("Expected at least one argument (header), got none"@)
        } else {
            match first_bad_header(values) {
                Some(line) => Err(
                    "Header \""@ + line + "\" is not in \"Header-Name: Header-Value\" format"@,
                ),
                None => Ok(text_list(values)),
            }
        }
    } else if values.len() == 1 {
        Ok(JsonView::Text(values[0]))
    } else {
        Err("Too many arguments, expected only one token"@)
    }
}

fn two_texts(k1: &str, k2: &str, complaint: &str, values: &[String]) -> (r: Result<Json, Refusal>)
    ensures
        json_outcome(r) == two_words(k1@, k2@, complaint@, views(values@)),
{
    if values.len() == 2 {
        Ok(pair_of_texts(k1, values[0].as_str(), k2, values[1].as_str()))
    } else {
        let got = number(values.len() as u64);
        Err(Refusal { message: complaint.to_owned().concat(got.as_str()) })
    }
}

/// What is stored for credentials of a kind.
pub fn normalize_auth(auth_type: &str, values: &[String]) -> (r: Result<Json, Refusal>)
    ensures
        json_outcome(r) == credentials(auth_type@, views(values@)),
{
    let ghost words = views(values@);
    if str_equal(auth_type, "bitbucket-oauth") {
        return two_texts(
            "consumer-key",
            "consumer-secret",
            "Expected two arguments (consumer-key, consumer-secret), got ",
            values,
        );
    }
    if str_equal(auth_type, "http-basic") {
        return two_texts(
            "username",
            "password",
            "Expected two arguments (username, password), got ",
            values,
        );
    }
    if str_equal(auth_type, "forgejo-token") {
        return two_texts(
            "username",
            "token",
            "Expected two arguments (username, access token), got ",
            values,
        );
    }
    if str_equal(auth_type, "gitlab-token") && values.len() == 2 {
        return Ok(pair_of_texts("username", values[0].as_str(), "token", values[1].as_str()));
    }
    if str_equal(auth_type, "custom-headers") {
        if values.len() == 0 {
            return refuse("Expected at least one argument (header), got none");
        }
        let mut i: usize = 0;
        assert(words.skip(0) =~= words);
        while i < values.len()
            invariant
                i <= values.len(),
                words == views(values@),
                auth_type@ == "custom-headers"@,
                values.len() > 0,
                credentials(auth_type@, words) == match first_bad_header(words) {
                    Some(line) => Err::<JsonView, Seq<char>>(
                        "Header \""@ + line + "\" is not in \"Header-Name: Header-Value\" format"@,
                    ),
                    None => Ok(text_list(words)),
                },
                first_bad_header(words) == first_bad_header(words.skip(i as int)),
            decreases values.len() - i,
        {
            let ghost rest = words.skip(i as int);
            assert(rest[0] == values@[i as int]@);
            assert(rest.drop_first() =~= words.skip(i + 1));
            let line = values[i].as_str();
            let valid = match split_once(line, ':') {
                Some((name, value)) => {
                    let shown = trim(value);
                    !name.is_empty() && !shown.is_empty()
                },
                None => false,
            };
            assert(valid == header(line@));
            if !valid {
                return refuse_about(
                    "Header \"",
                    line,
                    "\" is not in \"Header-Name: Header-Value\" format",
                );
            }
            i += 1;
        }
        assert(first_bad_header(words.skip(i as int)) is None);
        return Ok(text_array(values));
    }
    if values.len() != 1 {
        return refuse("Too many arguments, expected only one token");
    }
    Ok(text(values[0].as_str()))
}

} // verus!
