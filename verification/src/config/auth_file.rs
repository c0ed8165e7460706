//! Credentials as they stand in `auth.json`: sections by kind, and in each what belongs to a
//! domain.
use vstd::prelude::*;
use vstd::string::*;

use crate::config::auth::{
    AuthConfig, BitbucketOAuthCredentials, DomainMap, GitLabAuth, HttpBasicCredentials,
};
use crate::error::ComposerError;
use crate::json::{
    add_entry, empty_object, entries_view, has_key, key_at, items_view, keys_differ, lemma_array_view, lemma_key_at, lemma_key_at_unique,
    lemma_object_view, put_section, text, value_of, with_section, Entries, Json, JsonView,
};
use crate::json_text::{
    depth_read, is_plain, lemma_plain_deeper, parse, parsed, pretty, print_pretty,
};
use crate::text::views;

verus! {

// ---------------------------------------------------------------------------
// The format
// ---------------------------------------------------------------------------
/// A section can be read: it is missing, or an object whose values all are of their form.
pub open spec fn readable(section: Option<JsonView>, form: spec_fn(JsonView) -> bool) -> bool {
    match section {
        None => true,
        Some(JsonView::Object(o)) => all_of_form(o, form),
        Some(_) => false,
    }
}

/// All values are of a form.
pub open spec fn all_of_form(o: Entries, form: spec_fn(JsonView) -> bool) -> bool {
    forall|i: int| 0 <= i < o.len() ==> form((#[trigger] o[i]).1)
}

/// A section holds these values: one for each of its keys.
pub open spec fn holds<T>(
    section: Option<JsonView>,
    m: Map<Seq<char>, T>,
    reads: spec_fn(JsonView, T) -> bool,
) -> bool {
    match section {
        None => forall|d: Seq<char>| !#[trigger] m.dom().contains(d),
        Some(JsonView::Object(o)) => {
            &&& forall|d: Seq<char>| #[trigger] m.dom().contains(d) <==> has_key(o, d)
            &&& forall|d: Seq<char>| #[trigger]
                m.dom().contains(d) ==> reads(o[key_at(o, d)].1, m[d])
        },
        Some(_) => false,
    }
}

/// A text.
pub open spec fn text_form() -> spec_fn(JsonView) -> bool {
    |j: JsonView| j is Text
}

/// The value is this text.
pub open spec fn reads_text() -> spec_fn(JsonView, String) -> bool {
    |j: JsonView, s: String| j == JsonView::Text(s@)
}

/// A part of a record: what stands under a key, or, where the record is written as an array, at
/// a place.
pub open spec fn part_of(j: JsonView, key: Seq<char>, n: int) -> Option<JsonView> {
    match j {
        JsonView::Array(items) => if 0 <= n < items.len() {
            Some(items[n])
        } else {
            None
        },
        _ => j.field(key),
    }
}

/// An array has no more parts than these.
pub open spec fn no_longer_than(j: JsonView, n: int) -> bool {
    j matches JsonView::Array(items) ==> items.len() <= n
}

/// Two texts under two names.
pub open spec fn pair_of(j: JsonView, a: Seq<char>, b: Seq<char>) -> Option<(Seq<char>, Seq<char>)> {
    match (part_of(j, a, 0), part_of(j, b, 1)) {
        (Some(JsonView::Text(x)), Some(JsonView::Text(y))) if no_longer_than(j, 2) => Some((x, y)),
        _ => None,
    }
}

pub open spec fn basic_form() -> spec_fn(JsonView) -> bool {
    |j: JsonView| pair_of(j, "username"@, "password"@) is Some
}

pub open spec fn reads_basic() -> spec_fn(JsonView, HttpBasicCredentials) -> bool {
    |j: JsonView, c: HttpBasicCredentials|
        pair_of(j, "username"@, "password"@) == Some((c.username@, c.password@))
}

pub open spec fn bitbucket_form() -> spec_fn(JsonView) -> bool {
    |j: JsonView| pair_of(j, "consumer-key"@, "consumer-secret"@) is Some
}

pub open spec fn reads_bitbucket() -> spec_fn(JsonView, BitbucketOAuthCredentials) -> bool {
    |j: JsonView, c: BitbucketOAuthCredentials|
        pair_of(j, "consumer-key"@, "consumer-secret"@) == Some(
            (c.consumer_key@, c.consumer_secret@),
        )
}

/// A token for GitLab: a text, or a text under `oauth-token`; whether it is the latter.
pub open spec fn gitlab_of(j: JsonView) -> Option<(bool, Seq<char>)> {
    match j {
        JsonView::Text(t) => Some((false, t)),
        _ => match j.field("oauth-token"@) {
            Some(JsonView::Text(t)) => Some((true, t)),
            _ => None,
        },
    }
}

pub open spec fn gitlab_form() -> spec_fn(JsonView) -> bool {
    |j: JsonView| gitlab_of(j) is Some
}

pub open spec fn reads_gitlab() -> spec_fn(JsonView, GitLabAuth) -> bool {
    |j: JsonView, g: GitLabAuth| gitlab_of(j) == Some((g is OAuth, g.text()))
}

/// The document is of the form of `auth.json`.
pub open spec fn is_auth_file(v: JsonView) -> bool {
    &&& v is Object || v is Array
    &&& no_longer_than(v, 6)
    &&& readable(part_of(v, "http-basic"@, 0), basic_form())
    &&& readable(part_of(v, "bearer"@, 1), text_form())
    &&& readable(part_of(v, "github-oauth"@, 2), text_form())
    &&& readable(part_of(v, "gitlab-oauth"@, 3), text_form())
    &&& readable(part_of(v, "gitlab-token"@, 4), gitlab_form())
    &&& readable(part_of(v, "bitbucket-oauth"@, 5), bitbucket_form())
}

/// The document holds these credentials.
pub open spec fn says(v: JsonView, a: AuthConfig) -> bool {
    &&& holds(part_of(v, "http-basic"@, 0), a.http_basic@, reads_basic())
    &&& holds(part_of(v, "bearer"@, 1), a.bearer@, reads_text())
    &&& holds(part_of(v, "github-oauth"@, 2), a.github_oauth@, reads_text())
    &&& holds(part_of(v, "gitlab-oauth"@, 3), a.gitlab_oauth@, reads_text())
    &&& holds(part_of(v, "gitlab-token"@, 4), a.gitlab_token@, reads_gitlab())
    &&& holds(part_of(v, "bitbucket-oauth"@, 5), a.bitbucket_oauth@, reads_bitbucket())
}

// ---------------------------------------------------------------------------
// Reading
// ---------------------------------------------------------------------------
/// What stands in a section, where there is one.
pub open spec fn section_view(section: Option<&Json>) -> Option<JsonView> {
    match section {
        Some(j) => Some(j@),
        None => None,
    }
}

fn part<'a>(j: &'a Json, key: &str, n: usize) -> (r: Option<&'a Json>)
    ensures
        section_view(r) == part_of(j@, key@, n as int),
{
    match j {
        Json::Array(items) => {
            proof {
                lemma_array_view(*items);
            }
            if n < items.len() {
                assert(items_view(items@)[n as int] == items@[n as int]@);
                Some(&items[n])
            } else {
                None
            }
        },
        _ => j.get(key),
    }
}

fn within(j: &Json, n: usize) -> (r: bool)
    ensures
        r == no_longer_than(j@, n as int),
{
    match j {
        Json::Array(items) => {
            proof {
                lemma_array_view(*items);
            }
            items.len() <= n
        },
        _ => true,
    }
}

fn read_text(j: &Json) -> (r: Option<String>)
    ensures
        r.is_some() == text_form()(j@),
        r matches Some(s) ==> reads_text()(j@, s),
{
    match j {
        Json::Text(t) => Some(t.clone()),
        _ => None,
    }
}

fn read_pair(j: &Json, a: &str, b: &str) -> (r: Option<(String, String)>)
    ensures
        r.is_some() == pair_of(j@, a@, b@).is_some(),
        r matches Some(p) ==> pair_of(j@, a@, b@) == Some((p.0@, p.1@)),
{
    if !within(j, 2) {
        return None;
    }
    match (part(j, a, 0), part(j, b, 1)) {
        (Some(Json::Text(x)), Some(Json::Text(y))) => Some((x.clone(), y.clone())),
        _ => None,
    }
}

fn read_basic(j: &Json) -> (r: Option<HttpBasicCredentials>)
    ensures
        r.is_some() == basic_form()(j@),
        r matches Some(c) ==> reads_basic()(j@, c),
{
    match read_pair(j, "username", "password") {
        Some((username, password)) => Some(HttpBasicCredentials { username, password }),
        None => None,
    }
}

fn read_bitbucket(j: &Json) -> (r: Option<BitbucketOAuthCredentials>)
    ensures
        r.is_some() == bitbucket_form()(j@),
        r matches Some(c) ==> reads_bitbucket()(j@, c),
{
    match read_pair(j, "consumer-key", "consumer-secret") {
        Some((consumer_key, consumer_secret)) => Some(
            BitbucketOAuthCredentials { consumer_key, consumer_secret },
        ),
        None => None,
    }
}

fn read_gitlab(j: &Json) -> (r: Option<GitLabAuth>)
    ensures
        r.is_some() == gitlab_form()(j@),
        r matches Some(g) ==> reads_gitlab()(j@, g),
{
    match j {
        Json::Text(t) => Some(GitLabAuth::Token(t.clone())),
        _ => match j.get("oauth-token") {
            Some(Json::Text(t)) => Some(GitLabAuth::OAuth { oauth_token: t.clone() }),
            _ => None,
        },
    }
}

/// The values up to the `i`-th entry of a section are in the map.
spec fn read_up_to<T>(
    o: Entries,
    i: int,
    m: Map<Seq<char>, T>,
    reads: spec_fn(JsonView, T) -> bool,
) -> bool {
    &&& forall|d: Seq<char>| #[trigger] m.dom().contains(d) ==> 0 <= key_at(o, d) < i
    &&& forall|d: Seq<char>| #[trigger]
        m.dom().contains(d) ==> reads(o[key_at(o, d)].1, m[d])
    &&& forall|k: int| 0 <= k < i ==> m.dom().contains((#[trigger] o[k]).0)
}

proof fn lemma_read_one<T>(
    o: Entries,
    i: int,
    before: Map<Seq<char>, T>,
    after: Map<Seq<char>, T>,
    value: T,
    reads: spec_fn(JsonView, T) -> bool,
)
    requires
        0 <= i < o.len(),
        read_up_to(o, i, before, reads),
        reads(o[i].1, value),
        after == if before.dom().contains(o[i].0) {
            before
        } else {
            before.insert(o[i].0, value)
        },
    ensures
        read_up_to(o, i + 1, after, reads),
{
    lemma_key_at(o, o[i].0);
    if !before.dom().contains(o[i].0) {
        assert forall|k: int| 0 <= k < i implies (#[trigger] o[k]).0 != o[i].0 by {
            assert(before.dom().contains(o[k].0));
        }
        lemma_key_at_unique(o, o[i].0, i);
    }
}

proof fn lemma_all_read<T>(
    o: Entries,
    m: Map<Seq<char>, T>,
    reads: spec_fn(JsonView, T) -> bool,
)
    requires
        read_up_to(o, o.len() as int, m, reads),
    ensures
        holds(Some(JsonView::Object(o)), m, reads),
{
    assert forall|d: Seq<char>| #[trigger] m.dom().contains(d) <==> has_key(o, d) by {
        lemma_key_at(o, d);
        if has_key(o, d) {
            assert(m.dom().contains(o[key_at(o, d)].0));
        }
    }
}

/// The values of a section by domain, given how one of them is read.
fn read_section<T, F: Fn(&Json) -> Option<T>>(
    section: Option<&Json>,
    read: F,
    Ghost(form): Ghost<spec_fn(JsonView) -> bool>,
    Ghost(reads): Ghost<spec_fn(JsonView, T) -> bool>,
) -> (r: Option<DomainMap<T>>)
    requires
        forall|j: &Json| #[trigger] read.requires((j,)),
        forall|j: &Json, x: Option<T>| #[trigger]
            read.ensures((j,), x) ==> x.is_some() == form(j@) && (x matches Some(t) ==> reads(
                j@,
                t,
            )),
    ensures
        r.is_some() == readable(section_view(section), form),
        r matches Some(m) ==> holds(section_view(section), m@, reads),
{
    let mut m: DomainMap<T> = DomainMap::new();
    let entries = match section {
        None => {
            return Some(m);
        },
        Some(Json::Object(entries)) => entries,
        Some(_) => {
            return None;
        },
    };
    proof {
        lemma_object_view(*entries);
    }
    let ghost o = entries_view(entries@);
    assert(o.len() == entries.len());
    let mut i: usize = 0;
    while i < entries.len()
        invariant
            i <= entries.len(),
            o == entries_view(entries@),
            o.len() == entries.len(),
            section_view(section) == Some(JsonView::Object(o)),
            forall|j: &Json| #[trigger] read.requires((j,)),
            forall|j: &Json, x: Option<T>| #[trigger]
                read.ensures((j,), x) ==> x.is_some() == form(j@) && (x matches Some(t) ==> reads(
                    j@,
                    t,
                )),
            read_up_to(o, i as int, m@, reads),
            forall|k: int| 0 <= k < i ==> form((#[trigger] o[k]).1),
        decreases entries.len() - i,
    {
        assert(o[i as int] == (entries@[i as int].0@, entries@[i as int].1@));
        let ghost before = m@;
        match read(&entries[i].1) {
            None => {
                assert(!form(o[i as int].1));
                return None;
            },
            Some(value) => {
                let ghost v = value;
                if m.get(entries[i].0.as_str()).is_none() {
                    m.insert(entries[i].0.clone(), value);
                }
                proof {
                    lemma_read_one(o, i as int, before, m@, v, reads);
                }
            },
        }
        i += 1;
    }
    proof {
        lemma_all_read(o, m@, reads);
    }
    Some(m)
}

/// What is said where a document is not of the form of `auth.json`.
pub open spec fn is_parse_failure(e: ComposerError) -> bool {
    e matches ComposerError::Config(m) && crate::text::has_prefix(
        m@,
        "Failed to parse auth.json: "@,
    )
}

impl AuthConfig {
    /// The credentials in a document; none where it is not of the form of `auth.json`.
    pub fn from_value(value: &Json) -> (r: Option<AuthConfig>)
        ensures
            r.is_some() == is_auth_file(value@),
            r matches Some(a) ==> says(value@, a),
    {
        match value {
            Json::Object(_) => {},
            Json::Array(_) => {},
            _ => {
                return None;
            },
        }
        if !within(value, 6) {
            return None;
        }
        match (
            read_section(part(value, "http-basic", 0), read_basic, Ghost(basic_form()), Ghost(reads_basic())),
            read_section(part(value, "bearer", 1), read_text, Ghost(text_form()), Ghost(reads_text())),
            read_section(part(value, "github-oauth", 2), read_text, Ghost(text_form()), Ghost(reads_text())),
            read_section(part(value, "gitlab-oauth", 3), read_text, Ghost(text_form()), Ghost(reads_text())),
            read_section(part(value, "gitlab-token", 4), read_gitlab, Ghost(gitlab_form()), Ghost(reads_gitlab())),
            read_section(part(value, "bitbucket-oauth", 5), read_bitbucket, Ghost(bitbucket_form()), Ghost(reads_bitbucket())),
        ) {
            (
                Some(http_basic),
                Some(bearer),
                Some(github_oauth),
                Some(gitlab_oauth),
                Some(gitlab_token),
                Some(bitbucket_oauth),
            ) => Some(
                AuthConfig {
                    http_basic,
                    bearer,
                    github_oauth,
                    gitlab_oauth,
                    gitlab_token,
                    bitbucket_oauth,
                },
            ),
            _ => None,
        }
    }

    /// The credentials of the file, where there is one: none of any kind where not.
    pub fn from_file(contents: Option<&str>) -> (r: Result<AuthConfig, ComposerError>)
        ensures
            contents is None ==> (r matches Ok(a) && says(empty_object(), a)),
            contents matches Some(json) ==> {
                &&& r is Ok <==> parsed(json@) is Some && is_auth_file(parsed(json@)->0)
                &&& r matches Ok(a) ==> says(parsed(json@)->0, a)
                &&& r matches Err(e) ==> is_parse_failure(e)
            },
    {
        match contents {
            Some(json) => AuthConfig::from_json(json),
            None => Ok(AuthConfig::new()),
        }
    }

    /// The credentials of the environment: none are given where its variable is missing or
    /// empty.
    pub fn from_env(variable: Option<&str>) -> (r: Result<Option<AuthConfig>, ComposerError>)
        ensures
            variable is None || variable->0@.len() == 0 ==> r == Ok::<_, ComposerError>(
                None::<AuthConfig>,
            ),
            variable matches Some(json) ==> (json@.len() > 0 ==> {
                &&& r is Ok <==> parsed(json@) is Some && is_auth_file(parsed(json@)->0)
                &&& r matches Ok(a) ==> (a matches Some(c) && says(parsed(json@)->0, c))
                &&& r matches Err(e) ==> is_parse_failure(e)
            }),
    {
        match variable {
            Some(json) if !json.is_empty() => match AuthConfig::from_json(json) {
                Ok(a) => Ok(Some(a)),
                Err(e) => Err(e),
            },
            _ => Ok(None),
        }
    }

    /// The credentials in the text of `auth.json`. It fails where the text is not JSON or not
    /// of that form.
    pub fn from_json(json: &str) -> (r: Result<AuthConfig, ComposerError>)
        ensures
            r is Ok <==> parsed(json@) is Some && is_auth_file(parsed(json@)->0),
            r matches Ok(a) ==> says(parsed(json@)->0, a),
            r matches Err(e) ==> is_parse_failure(e),
    {
        proof {
            crate::text::lemma_prefix_of_joined("Failed to parse auth.json: "@, "no JSON"@);
            crate::text::lemma_prefix_of_joined(
                "Failed to parse auth.json: "@,
                "a section is not of its form"@,
            );
        }
        match parse(json) {
            Some(value) => match AuthConfig::from_value(&value) {
                Some(a) => Ok(a),
                None => Err(
                    ComposerError::Config(
                        "Failed to parse auth.json: ".to_owned().concat(
                            "a section is not of its form",
                        ),
                    ),
                ),
            },
            None => Err(
                ComposerError::Config("Failed to parse auth.json: ".to_owned().concat("no JSON")),
            ),
        }
    }
}

// ---------------------------------------------------------------------------
// Writing
// ---------------------------------------------------------------------------
/// A section with these values: a plain object, all of them of their form; none where there are
/// no values.
pub open spec fn is_written<T>(
    section: Option<JsonView>,
    m: Map<Seq<char>, T>,
    form: spec_fn(JsonView) -> bool,
    reads: spec_fn(JsonView, T) -> bool,
) -> bool {
    &&& holds(section, m, reads)
    &&& readable(section, form)
    &&& section matches Some(v) ==> is_plain(v, 2)
}

fn write_text(s: &String) -> (r: Json)
    ensures
        text_form()(r@),
        is_plain(r@, 1),
        reads_text()(r@, *s),
{
    text(s.as_str())
}

fn write_pair(a: &str, x: &String, b: &str, y: &String) -> (r: Json)
    requires
        a@ != b@,
    ensures
        pair_of(r@, a@, b@) == Some((x@, y@)),
        is_plain(r@, 1),
{
    let mut e: Vec<(String, Json)> = Vec::new();
    assert(entries_view(e@) =~= Entries::empty());
    add_entry(&mut e, a, text(x.as_str()));
    add_entry(&mut e, b, text(y.as_str()));
    proof {
        let o = entries_view(e@);
        lemma_object_view(e);
        assert(o[0] == (a@, JsonView::Text(x@)));
        assert(o[1] == (b@, JsonView::Text(y@)));
        assert(is_plain(o[0].1, 0) && is_plain(o[1].1, 0));
        lemma_key_at_unique(o, a@, 0);
        lemma_key_at_unique(o, b@, 1);
    }
    Json::Object(e)
}

fn write_basic(c: &HttpBasicCredentials) -> (r: Json)
    ensures
        basic_form()(r@),
        is_plain(r@, 1),
        reads_basic()(r@, *c),
{
    proof {
        reveal_strlit("username");
        reveal_strlit("password");
        assert("username"@[0] != "password"@[0]);
    }
    write_pair("username", &c.username, "password", &c.password)
}

fn write_bitbucket(c: &BitbucketOAuthCredentials) -> (r: Json)
    ensures
        bitbucket_form()(r@),
        is_plain(r@, 1),
        reads_bitbucket()(r@, *c),
{
    proof {
        reveal_strlit("consumer-key");
        reveal_strlit("consumer-secret");
        assert("consumer-key"@.len() != "consumer-secret"@.len());
    }
    write_pair("consumer-key", &c.consumer_key, "consumer-secret", &c.consumer_secret)
}

fn write_gitlab(g: &GitLabAuth) -> (r: Json)
    ensures
        gitlab_form()(r@),
        is_plain(r@, 1),
        reads_gitlab()(r@, *g),
{
    match g {
        GitLabAuth::Token(t) => text(t.as_str()),
        GitLabAuth::OAuth { oauth_token } => {
            let mut e: Vec<(String, Json)> = Vec::new();
            assert(entries_view(e@) =~= Entries::empty());
            add_entry(&mut e, "oauth-token", text(oauth_token.as_str()));
            proof {
                let o = entries_view(e@);
                lemma_object_view(e);
                assert(o[0] == ("oauth-token"@, JsonView::Text(oauth_token@)));
                assert(is_plain(o[0].1, 0));
                lemma_key_at_unique(o, "oauth-token"@, 0);
            }
            Json::Object(e)
        },
    }
}

/// A section with the values of a map, given how one of them is written.
fn write_section<T, F: Fn(&T) -> Json>(
    m: &DomainMap<T>,
    write: F,
    Ghost(form): Ghost<spec_fn(JsonView) -> bool>,
    Ghost(reads): Ghost<spec_fn(JsonView, T) -> bool>,
) -> (r: Option<Json>)
    requires
        forall|x: &T| #[trigger] write.requires((x,)),
        forall|x: &T, j: Json| #[trigger]
            write.ensures((x,), j) ==> form(j@) && reads(j@, *x) && is_plain(j@, 1),
    ensures
        is_written(
            match r {
                Some(j) => Some(j@),
                None => None,
            },
            m@,
            form,
            reads,
        ),
{
    let domains = m.domains();
    let ghost all = views(domains@);
    assert(all.len() == domains.len());
    if domains.len() == 0 {
        assert forall|d: Seq<char>| !#[trigger] m@.dom().contains(d) by {
            assert(!all.contains(d));
        }
        return None;
    }
    let mut e: Vec<(String, Json)> = Vec::new();
    let mut i: usize = 0;
    while i < domains.len()
        invariant
            i <= domains.len(),
            all == views(domains@),
            all.len() == domains.len(),
            forall|d: Seq<char>| #[trigger] m@.dom().contains(d) <==> all.contains(d),
            forall|k: int, l: int|
                0 <= k < l < domains@.len() ==> (#[trigger] domains@[k])@
                    != (#[trigger] domains@[l])@,
            forall|x: &T| #[trigger] write.requires((x,)),
            forall|x: &T, j: Json| #[trigger]
                write.ensures((x,), j) ==> form(j@) && reads(j@, *x) && is_plain(j@, 1),
            entries_view(e@).len() == i,
            forall|k: int|
                0 <= k < i ==> {
                    &&& (#[trigger] entries_view(e@)[k]).0 == all[k]
                    &&& form(entries_view(e@)[k].1)
                    &&& is_plain(entries_view(e@)[k].1, 1)
                    &&& m@.dom().contains(all[k])
                    &&& reads(entries_view(e@)[k].1, m@[all[k]])
                },
        decreases domains.len() - i,
    {
        assert(all[i as int] == domains@[i as int]@);
        assert(all.contains(all[i as int]));
        if let Some(x) = m.get(domains[i].as_str()) {
            let j = write(x);
            add_entry(&mut e, domains[i].as_str(), j);
        }
        i += 1;
    }
    proof {
        let o = entries_view(e@);
        lemma_object_view(e);
        assert forall|k: int, l: int| 0 <= k < l < o.len() implies (#[trigger] o[k]).0
            != (#[trigger] o[l]).0 by {
            assert(all[k] == domains@[k]@);
            assert(all[l] == domains@[l]@);
        }
        assert forall|d: Seq<char>| #[trigger] m@.dom().contains(d) <==> has_key(o, d) by {
            if has_key(o, d) {
                let k = choose|k: int| 0 <= k < o.len() && (#[trigger] o[k]).0 == d;
                assert(all[k] == d);
            }
            if m@.dom().contains(d) {
                let k = choose|k: int| 0 <= k < all.len() && all[k] == d;
                assert(o[k].0 == d);
            }
        }
        assert forall|d: Seq<char>| #[trigger] m@.dom().contains(d) implies reads(
            o[key_at(o, d)].1,
            m@[d],
        ) by {
            lemma_key_at(o, d);
            assert(o[key_at(o, d)].0 == d);
        }
    }
    Some(Json::Object(e))
}

/// One more section under a new key leaves the others as they are.
proof fn lemma_with_section(
    o: Entries,
    key: Seq<char>,
    section: Option<JsonView>,
    other: Seq<char>,
)
    requires
        !has_key(o, key),
    ensures
        value_of(with_section(o, key, section), key) == section,
        other != key ==> value_of(with_section(o, key, section), other) == value_of(o, other),
        other != key ==> has_key(with_section(o, key, section), other) == has_key(o, other),
{
    let p = with_section(o, key, section);
    lemma_key_at(o, key);
    lemma_key_at(o, other);
    if section is Some {
        assert forall|k: int| 0 <= k < o.len() implies (#[trigger] p[k]).0 != key by {
            assert(p[k] == o[k]);
        }
        lemma_key_at_unique(p, key, o.len() as int);
        if other != key {
            let at = key_at(o, other);
            if at < o.len() {
                assert(p[at] == o[at]);
                assert forall|k: int| 0 <= k < at implies (#[trigger] p[k]).0 != other by {
                    assert(p[k] == o[k]);
                }
                lemma_key_at_unique(p, other, at);
                lemma_key_at(p, other);
            } else {
                assert forall|k: int| 0 <= k < p.len() implies (#[trigger] p[k]).0 != other by {
                    if k < o.len() {
                        assert(p[k] == o[k]);
                    }
                }
                lemma_key_at_unique(p, other, p.len() as int);
                lemma_key_at(p, other);
            }
        }
    }
}

proof fn lemma_section_names_differ()
    ensures
        "http-basic"@ != "bearer"@,
        "http-basic"@ != "github-oauth"@,
        "http-basic"@ != "gitlab-oauth"@,
        "http-basic"@ != "gitlab-token"@,
        "http-basic"@ != "bitbucket-oauth"@,
        "bearer"@ != "github-oauth"@,
        "bearer"@ != "gitlab-oauth"@,
        "bearer"@ != "gitlab-token"@,
        "bearer"@ != "bitbucket-oauth"@,
        "github-oauth"@ != "gitlab-oauth"@,
        "github-oauth"@ != "gitlab-token"@,
        "github-oauth"@ != "bitbucket-oauth"@,
        "gitlab-oauth"@ != "gitlab-token"@,
        "gitlab-oauth"@ != "bitbucket-oauth"@,
        "gitlab-token"@ != "bitbucket-oauth"@,
{
    reveal_strlit("http-basic");
    reveal_strlit("bearer");
    reveal_strlit("github-oauth");
    reveal_strlit("gitlab-oauth");
    reveal_strlit("gitlab-token");
    reveal_strlit("bitbucket-oauth");
    assert("bearer"@.len() == 6);
    assert("http-basic"@.len() == 10);
    assert("github-oauth"@.len() == 12);
    assert("gitlab-oauth"@.len() == 12);
    assert("gitlab-token"@.len() == 12);
    assert("bitbucket-oauth"@.len() == 15);
    assert("github-oauth"@[3] != "gitlab-oauth"@[3]);
    assert("github-oauth"@[3] != "gitlab-token"@[3]);
    assert("gitlab-oauth"@[7] != "gitlab-token"@[7]);
}

impl AuthConfig {
    /// The document that holds the credentials. Kinds without credentials have no section.
    pub fn to_value(&self) -> (r: Json)
        ensures
            is_auth_file(r@),
            says(r@, *self),
            is_plain(r@, 3),
    {
        let mut e: Vec<(String, Json)> = Vec::new();
        assert(entries_view(e@) =~= Entries::empty());
        let a = write_section(
            &self.http_basic,
            write_basic,
            Ghost(basic_form()),
            Ghost(reads_basic()),
        );
        let b = write_section(&self.bearer, write_text, Ghost(text_form()), Ghost(reads_text()));
        let c = write_section(
            &self.github_oauth,
            write_text,
            Ghost(text_form()),
            Ghost(reads_text()),
        );
        let d = write_section(
            &self.gitlab_oauth,
            write_text,
            Ghost(text_form()),
            Ghost(reads_text()),
        );
        let f = write_section(
            &self.gitlab_token,
            write_gitlab,
            Ghost(gitlab_form()),
            Ghost(reads_gitlab()),
        );
        let g = write_section(
            &self.bitbucket_oauth,
            write_bitbucket,
            Ghost(bitbucket_form()),
            Ghost(reads_bitbucket()),
        );
        let ghost o0 = entries_view(e@);
        let ghost sa = json_view_of(a);
        let ghost sb = json_view_of(b);
        let ghost sc = json_view_of(c);
        let ghost sd = json_view_of(d);
        let ghost sf = json_view_of(f);
        let ghost sg = json_view_of(g);
        put_section(&mut e, "http-basic", a);
        let ghost o1 = entries_view(e@);
        put_section(&mut e, "bearer", b);
        let ghost o2 = entries_view(e@);
        put_section(&mut e, "github-oauth", c);
        let ghost o3 = entries_view(e@);
        put_section(&mut e, "gitlab-oauth", d);
        let ghost o4 = entries_view(e@);
        put_section(&mut e, "gitlab-token", f);
        let ghost o5 = entries_view(e@);
        put_section(&mut e, "bitbucket-oauth", g);
        proof {
            lemma_section_names_differ();
            lemma_object_view(e);
            let k = seq![
                "http-basic"@,
                "bearer"@,
                "github-oauth"@,
                "gitlab-oauth"@,
                "gitlab-token"@,
                "bitbucket-oauth"@,
            ];
            lemma_six_sections(o0, k, seq![sa, sb, sc, sd, sf, sg]);
            assert(o1 == with_section(o0, k[0], sa));
            assert(o2 == with_section(o1, k[1], sb));
            assert(o3 == with_section(o2, k[2], sc));
            assert(o4 == with_section(o3, k[3], sd));
            assert(o5 == with_section(o4, k[4], sf));
            let o6 = entries_view(e@);
            assert(o6 == with_section(o5, k[5], sg));
            assert(value_of(o6, k[0]) == sa);
            assert(value_of(o6, k[1]) == sb);
            assert(value_of(o6, k[2]) == sc);
            assert(value_of(o6, k[3]) == sd);
            assert(value_of(o6, k[4]) == sf);
            assert(value_of(o6, k[5]) == sg);
        }
        Json::Object(e)
    }

    /// The text of `auth.json` that holds the credentials: what is read from it is what it was
    /// written for.
    pub fn to_json(&self) -> (r: String)
        ensures
            parsed(r@) matches Some(v) && is_auth_file(v) && says(v, *self) && r@ == pretty(v),
    {
        let value = self.to_value();
        proof {
            lemma_plain_deeper(value@, 3, depth_read());
        }
        print_pretty(&value)
    }
}

/// What stands in a section, where there is one.
spec fn json_view_of(j: Option<Json>) -> Option<JsonView> {
    match j {
        Some(x) => Some(x@),
        None => None,
    }
}

/// The entries with sections under the first `n` keys.
spec fn with_sections(o: Entries, k: Seq<Seq<char>>, s: Seq<Option<JsonView>>, n: int) -> Entries
    decreases n,
{
    if n <= 0 || n > k.len() || n > s.len() {
        o
    } else {
        with_section(with_sections(o, k, s, n - 1), k[n - 1], s[n - 1])
    }
}

proof fn lemma_sections(o: Entries, k: Seq<Seq<char>>, s: Seq<Option<JsonView>>, n: int)
    requires
        o.len() == 0,
        k.len() == s.len(),
        forall|i: int| 0 <= i < s.len() ==> (#[trigger] s[i] matches Some(v) ==> is_plain(v, 2)),
        0 <= n <= k.len(),
        forall|i: int, j: int| 0 <= i < j < k.len() ==> #[trigger] k[i] != #[trigger] k[j],
    ensures
        keys_differ(with_sections(o, k, s, n)),
        forall|i: int|
            0 <= i < with_sections(o, k, s, n).len() ==> is_plain(
                (#[trigger] with_sections(o, k, s, n)[i]).1,
                2,
            ),
        forall|i: int| 0 <= i < n ==> value_of(with_sections(o, k, s, n), #[trigger] k[i]) == s[i],
        forall|i: int| n <= i < k.len() ==> !has_key(with_sections(o, k, s, n), #[trigger] k[i]),
    decreases n,
{
    if n > 0 {
        lemma_sections(o, k, s, n - 1);
        let p = with_sections(o, k, s, n - 1);
        assert(!has_key(p, k[n - 1]));
        assert forall|i: int| 0 <= i < n implies value_of(
            with_sections(o, k, s, n),
            #[trigger] k[i],
        ) == s[i] by {
            lemma_with_section(p, k[n - 1], s[n - 1], k[i]);
            if i < n - 1 {
                assert(k[i] != k[n - 1]);
            }
        }
        assert forall|i: int| n <= i < k.len() implies !has_key(
            with_sections(o, k, s, n),
            #[trigger] k[i],
        ) by {
            lemma_with_section(p, k[n - 1], s[n - 1], k[i]);
            assert(k[n - 1] != k[i]);
        }
    }
}

proof fn lemma_six_sections(o: Entries, k: Seq<Seq<char>>, s: Seq<Option<JsonView>>)
    requires
        o.len() == 0,
        k.len() == 6,
        s.len() == 6,
        forall|i: int| 0 <= i < s.len() ==> (#[trigger] s[i] matches Some(v) ==> is_plain(v, 2)),
        forall|i: int, j: int| 0 <= i < j < k.len() ==> #[trigger] k[i] != #[trigger] k[j],
    ensures
        ({
            let o1 = with_section(o, k[0], s[0]);
            let o2 = with_section(o1, k[1], s[1]);
            let o3 = with_section(o2, k[2], s[2]);
            let o4 = with_section(o3, k[3], s[3]);
            let o5 = with_section(o4, k[4], s[4]);
            let o6 = with_section(o5, k[5], s[5]);
            &&& forall|i: int| 0 <= i < 6 ==> value_of(o6, #[trigger] k[i]) == s[i]
            &&& is_plain(JsonView::Object(o6), 3)
        }),
{
    lemma_sections(o, k, s, 6);
    reveal_with_fuel(with_sections, 7);
}

// ---------------------------------------------------------------------------
// What holds of it
// ---------------------------------------------------------------------------
/// The same credentials, domain by domain.
pub open spec fn same_credentials(a: AuthConfig, b: AuthConfig) -> bool {
    &&& forall|d: Seq<char>|
        a.http_basic@.dom().contains(d) == #[trigger] b.http_basic@.dom().contains(d) && (
        b.http_basic@.dom().contains(d) ==> a.http_basic@[d].username@
            == b.http_basic@[d].username@ && a.http_basic@[d].password@
            == b.http_basic@[d].password@)
    &&& same_texts(a.bearer@, b.bearer@)
    &&& same_texts(a.github_oauth@, b.github_oauth@)
    &&& same_texts(a.gitlab_oauth@, b.gitlab_oauth@)
    &&& forall|d: Seq<char>|
        a.gitlab_token@.dom().contains(d) == #[trigger] b.gitlab_token@.dom().contains(d) && (
        b.gitlab_token@.dom().contains(d) ==> a.gitlab_token@[d].text()
            == b.gitlab_token@[d].text())
    &&& forall|d: Seq<char>|
        a.bitbucket_oauth@.dom().contains(d) == #[trigger] b.bitbucket_oauth@.dom().contains(d) && (
        b.bitbucket_oauth@.dom().contains(d) ==> a.bitbucket_oauth@[d].consumer_key@
            == b.bitbucket_oauth@[d].consumer_key@ && a.bitbucket_oauth@[d].consumer_secret@
            == b.bitbucket_oauth@[d].consumer_secret@)
}

/// The same texts, domain by domain.
pub open spec fn same_texts(a: Map<Seq<char>, String>, b: Map<Seq<char>, String>) -> bool {
    forall|d: Seq<char>|
        a.dom().contains(d) == #[trigger] b.dom().contains(d) && (b.dom().contains(d) ==> a[d]@
            == b[d]@)
}

/// What is read from a document that holds some credentials is those credentials; such a
/// document is what `to_value` writes and what `from_value` reads.
pub proof fn law_written_credentials_are_read_back(v: JsonView, a: AuthConfig, b: AuthConfig)
    requires
        says(v, a),
        says(v, b),
    ensures
        same_credentials(a, b),
{
    lemma_same_holding(part_of(v, "http-basic"@, 0), a.http_basic@, b.http_basic@, reads_basic());
    lemma_same_holding(part_of(v, "bearer"@, 1), a.bearer@, b.bearer@, reads_text());
    lemma_same_holding(part_of(v, "github-oauth"@, 2), a.github_oauth@, b.github_oauth@, reads_text());
    lemma_same_holding(part_of(v, "gitlab-oauth"@, 3), a.gitlab_oauth@, b.gitlab_oauth@, reads_text());
    lemma_same_holding(part_of(v, "gitlab-token"@, 4), a.gitlab_token@, b.gitlab_token@, reads_gitlab());
    lemma_same_holding(
        part_of(v, "bitbucket-oauth"@, 5),
        a.bitbucket_oauth@,
        b.bitbucket_oauth@,
        reads_bitbucket(),
    );
}

proof fn lemma_same_holding<T>(
    section: Option<JsonView>,
    a: Map<Seq<char>, T>,
    b: Map<Seq<char>, T>,
    reads: spec_fn(JsonView, T) -> bool,
)
    requires
        holds(section, a, reads),
        holds(section, b, reads),
    ensures
        forall|d: Seq<char>| a.dom().contains(d) == #[trigger] b.dom().contains(d),
        section matches Some(JsonView::Object(o)) ==> forall|d: Seq<char>| #[trigger]
            b.dom().contains(d) ==> reads(o[key_at(o, d)].1, a[d]) && reads(o[key_at(o, d)].1, b[d]),
        !(section matches Some(JsonView::Object(_))) ==> forall|d: Seq<char>|
            !#[trigger] b.dom().contains(d),
{
    assert forall|d: Seq<char>| a.dom().contains(d) == #[trigger] b.dom().contains(d) by {}
}

} // verus!
