//! Repositories as a manifest writes them.
use vstd::prelude::*;
use vstd::string::*;

use crate::error::{refuse, Refusal};
use crate::json::{
    add_entry, copy, entries_view, has_key, lemma_key_at, lemma_object_view, text, value_of,
    Entries, Json, JsonView,
};
use crate::schema::{PathRepositoryOptions, Repository, RepositoryOptions};
use crate::text::str_equal;

verus! {

/// What a repository is.
pub enum RepositoryView {
    Composer { url: Seq<char>, options: RepositoryOptions },
    Vcs { url: Seq<char> },
    Git { url: Seq<char> },
    GitHub { url: Seq<char> },
    GitLab { url: Seq<char> },
    Bitbucket { url: Seq<char> },
    Path { url: Seq<char>, options: PathRepositoryOptions },
    Artifact { url: Seq<char> },
    Package { package: JsonView },
    Disabled(bool),
    NamedDisabled { name: Seq<char>, disabled: bool },
}

impl View for Repository {
    type V = RepositoryView;

    open spec fn view(&self) -> RepositoryView {
        match *self {
            Repository::Composer { url, options } => RepositoryView::Composer {
                url: url@,
                options,
            },
            Repository::Vcs { url } => RepositoryView::Vcs { url: url@ },
            Repository::Git { url } => RepositoryView::Git { url: url@ },
            Repository::GitHub { url } => RepositoryView::GitHub { url: url@ },
            Repository::GitLab { url } => RepositoryView::GitLab { url: url@ },
            Repository::Bitbucket { url } => RepositoryView::Bitbucket { url: url@ },
            Repository::Path { url, options } => RepositoryView::Path { url: url@, options },
            Repository::Artifact { url } => RepositoryView::Artifact { url: url@ },
            Repository::Package { package } => RepositoryView::Package { package: package@ },
            Repository::Disabled(b) => RepositoryView::Disabled(b),
            Repository::NamedDisabled { name, disabled } => RepositoryView::NamedDisabled {
                name: name@,
                disabled,
            },
        }
    }
}

// ---------------------------------------------------------------------------
// Writing
// ---------------------------------------------------------------------------
/// A type and an address.
pub open spec fn typed(kind: Seq<char>, url: Seq<char>) -> Entries {
    Entries::empty().push(("type"@, JsonView::Text(kind))).push(("url"@, JsonView::Text(url)))
}

/// A switch under a name, nothing where it is not set.
pub open spec fn switch_view(name: Seq<char>, on: Option<bool>) -> JsonView {
    JsonView::Object(
        match on {
            Some(b) => Entries::empty().push((name, JsonView::Bool(b))),
            None => Entries::empty(),
        },
    )
}

/// A repository in JSON.
pub open spec fn written(r: RepositoryView) -> JsonView {
    match r {
        RepositoryView::Composer { url, options } => JsonView::Object(
            match options.ssl {
                Some(ssl) => typed("composer"@, url).push(
                    (
                        "options"@,
                        JsonView::Object(
                            Entries::empty().push(
                                ("ssl"@, switch_view("verify_peer"@, ssl.verify_peer)),
                            ),
                        ),
                    ),
                ),
                None => typed("composer"@, url),
            },
        ),
        RepositoryView::Vcs { url } => JsonView::Object(typed("vcs"@, url)),
        RepositoryView::Git { url } => JsonView::Object(typed("git"@, url)),
        RepositoryView::GitHub { url } => JsonView::Object(typed("github"@, url)),
        RepositoryView::GitLab { url } => JsonView::Object(typed("gitlab"@, url)),
        RepositoryView::Bitbucket { url } => JsonView::Object(typed("bitbucket"@, url)),
        RepositoryView::Path { url, options } => JsonView::Object(
            if options.symlink is Some {
                typed("path"@, url).push(
                    ("options"@, switch_view("symlink"@, options.symlink)),
                )
            } else {
                typed("path"@, url)
            },
        ),
        RepositoryView::Artifact { url } => JsonView::Object(typed("artifact"@, url)),
        RepositoryView::Package { package } => JsonView::Object(
            Entries::empty().push(("type"@, JsonView::Text("package"@))).push(
                ("package"@, package),
            ),
        ),
        RepositoryView::Disabled(b) => JsonView::Bool(b),
        RepositoryView::NamedDisabled { name, disabled } => JsonView::Object(
            Entries::empty().push((name, JsonView::Bool(disabled))),
        ),
    }
}

fn no_entries() -> (r: Vec<(String, Json)>)
    ensures
        entries_view(r@) == Entries::empty(),
{
    let r: Vec<(String, Json)> = Vec::new();
    assert(entries_view(r@) =~= Entries::empty());
    r
}

fn typed_entries(kind: &str, url: &String) -> (r: Vec<(String, Json)>)
    ensures
        entries_view(r@) == typed(kind@, url@),
{
    let mut e = no_entries();
    add_entry(&mut e, "type", text(kind));
    add_entry(&mut e, "url", text(url.as_str()));
    e
}

fn object(entries: Vec<(String, Json)>) -> (r: Json)
    ensures
        r@ == JsonView::Object(entries_view(entries@)),
{
    proof {
        lemma_object_view(entries);
    }
    Json::Object(entries)
}

fn switch(name: &str, on: Option<bool>) -> (r: Json)
    ensures
        r@ == switch_view(name@, on),
{
    let mut e = no_entries();
    if let Some(b) = on {
        add_entry(&mut e, name, Json::Bool(b));
    }
    object(e)
}

impl Repository {
    /// The repository in JSON. Options that say nothing are left out.
    pub fn to_json(&self) -> (r: Json)
        ensures
            r@ == written(self@),
    {
        match self {
            Repository::Composer { url, options } => {
                let mut e = typed_entries("composer", url);
                if let Some(ssl) = options.ssl {
                    let mut o = no_entries();
                    add_entry(&mut o, "ssl", switch("verify_peer", ssl.verify_peer));
                    add_entry(&mut e, "options", object(o));
                }
                object(e)
            },
            Repository::Vcs { url } => object(typed_entries("vcs", url)),
            Repository::Git { url } => object(typed_entries("git", url)),
            Repository::GitHub { url } => object(typed_entries("github", url)),
            Repository::GitLab { url } => object(typed_entries("gitlab", url)),
            Repository::Bitbucket { url } => object(typed_entries("bitbucket", url)),
            Repository::Path { url, options } => {
                let mut e = typed_entries("path", url);
                if options.symlink.is_some() {
                    add_entry(&mut e, "options", switch("symlink", options.symlink));
                }
                object(e)
            },
            Repository::Artifact { url } => object(typed_entries("artifact", url)),
            Repository::Package { package } => {
                let mut e = no_entries();
                add_entry(&mut e, "type", text("package"));
                add_entry(&mut e, "package", copy(package));
                object(e)
            },
            Repository::Disabled(b) => Json::Bool(*b),
            Repository::NamedDisabled { name, disabled } => {
                let mut e = no_entries();
                add_entry(&mut e, name.as_str(), Json::Bool(*disabled));
                object(e)
            },
        }
    }
}

// ---------------------------------------------------------------------------
// Reading
// ---------------------------------------------------------------------------
/// What the options of a repository were read as, for a remote one and for a local one: the
/// defaults where there are none, or why they cannot be read.
#[derive(Debug)]
pub struct OptionsRead {
    pub remote: Result<RepositoryOptions, String>,
    pub local: Result<PathRepositoryOptions, String>,
}

/// The only entry of an object is a switch, and its name is not `type`.
pub open spec fn lone_switch(o: Entries) -> bool {
    o.len() == 1 && !has_key(o, "type"@) && o[0].1 is Bool
}

/// The address of a repository.
pub open spec fn url_of(o: Entries) -> Result<Seq<char>, Seq<char>> {
    match value_of(o, "url"@) {
        Some(JsonView::Text(u)) => Ok(u),
        _ => Err("repository URL is required"@),
    }
}

/// The repository of a type that takes an address and nothing else.
pub open spec fn plain_kind(kind: Seq<char>, url: Seq<char>) -> Option<RepositoryView> {
    if kind == "vcs"@ {
        Some(RepositoryView::Vcs { url })
    } else if kind == "git"@ {
        Some(RepositoryView::Git { url })
    } else if kind == "github"@ {
        Some(RepositoryView::GitHub { url })
    } else if kind == "gitlab"@ {
        Some(RepositoryView::GitLab { url })
    } else if kind == "bitbucket"@ {
        Some(RepositoryView::Bitbucket { url })
    } else if kind == "artifact"@ {
        Some(RepositoryView::Artifact { url })
    } else {
        None
    }
}

/// The repository of a type, or why there is none.
pub open spec fn of_kind(o: Entries, kind: Seq<char>, read: OptionsRead) -> Result<
    RepositoryView,
    Seq<char>,
> {
    if kind == "composer"@ {
        match url_of(o) {
            Ok(url) => match read.remote {
                Ok(options) => Ok(RepositoryView::Composer { url, options }),
                Err(e) => Err(e@),
            },
            Err(e) => Err(e),
        }
    } else if kind == "path"@ {
        match url_of(o) {
            Ok(url) => match read.local {
                Ok(options) => Ok(RepositoryView::Path { url, options }),
                Err(e) => Err(e@),
            },
            Err(e) => Err(e),
        }
    } else if kind == "package"@ {
        match value_of(o, "package"@) {
            Some(package) => Ok(RepositoryView::Package { package }),
            None => Err("package repository data is required"@),
        }
    } else if plain_kind(kind, Seq::empty()) is Some {
        match url_of(o) {
            Ok(url) => Ok(plain_kind(kind, url)->0),
            Err(e) => Err(e),
        }
    } else {
        Err("unsupported repository type "@ + kind)
    }
}

/// The repository that a value stands for, or why it stands for none.
pub open spec fn read_as(v: JsonView, read: OptionsRead) -> Result<RepositoryView, Seq<char>> {
    match v {
        JsonView::Bool(b) => Ok(RepositoryView::Disabled(b)),
        JsonView::Object(o) => if lone_switch(o) {
            Ok(RepositoryView::NamedDisabled { name: o[0].0, disabled: o[0].1->Bool_0 })
        } else {
            match value_of(o, "type"@) {
                Some(JsonView::Text(kind)) => of_kind(o, kind, read),
                _ => Err("repository type is required"@),
            }
        },
        _ => Err("repository must be an object or boolean"@),
    }
}

/// What a fallible reading comes to.
pub open spec fn reading(r: Result<Repository, Refusal>) -> Result<RepositoryView, Seq<char>> {
    match r {
        Ok(x) => Ok(x@),
        Err(e) => Err(e@),
    }
}

fn url(value: &Json) -> (r: Result<String, Refusal>)
    requires
        value@ is Object,
    ensures
        match url_of(value@->Object_0) {
            Ok(u) => r is Ok && r->Ok_0@ == u,
            Err(e) => r is Err && r->Err_0@ == e,
        },
{
    match value.get("url") {
        Some(Json::Text(u)) => Ok(u.clone()),
        _ => refuse("repository URL is required"),
    }
}

fn is_plain(kind: &str) -> (r: bool)
    ensures
        r == plain_kind(kind@, Seq::empty()) is Some,
{
    str_equal(kind, "vcs") || str_equal(kind, "git") || str_equal(kind, "github") || str_equal(
        kind,
        "gitlab",
    ) || str_equal(kind, "bitbucket") || str_equal(kind, "artifact")
}

fn plain(kind: &str, url: String) -> (r: Repository)
    requires
        plain_kind(kind@, Seq::empty()) is Some,
    ensures
        plain_kind(kind@, url@) == Some(r@),
{
    if str_equal(kind, "vcs") {
        Repository::Vcs { url }
    } else if str_equal(kind, "git") {
        Repository::Git { url }
    } else if str_equal(kind, "github") {
        Repository::GitHub { url }
    } else if str_equal(kind, "gitlab") {
        Repository::GitLab { url }
    } else if str_equal(kind, "bitbucket") {
        Repository::Bitbucket { url }
    } else {
        Repository::Artifact { url }
    }
}

fn read_kind(value: &Json, kind: &str, read: &OptionsRead) -> (r: Result<Repository, Refusal>)
    requires
        value@ is Object,
    ensures
        reading(r) == of_kind(value@->Object_0, kind@, *read),
{
    if str_equal(kind, "composer") {
        return match url(value) {
            Ok(url) => match &read.remote {
                Ok(options) => Ok(Repository::Composer { url, options: *options }),
                Err(e) => refuse(e.as_str()),
            },
            Err(e) => Err(e),
        };
    }
    if str_equal(kind, "path") {
        return match url(value) {
            Ok(url) => match &read.local {
                Ok(options) => Ok(Repository::Path { url, options: *options }),
                Err(e) => refuse(e.as_str()),
            },
            Err(e) => Err(e),
        };
    }
    if str_equal(kind, "package") {
        return match value.get("package") {
            Some(p) => Ok(Repository::Package { package: copy(p) }),
            None => refuse("package repository data is required"),
        };
    }
    if is_plain(kind) {
        return match url(value) {
            Ok(u) => Ok(plain(kind, u)),
            Err(e) => Err(e),
        };
    }
    let message = "unsupported repository type ".to_owned().concat(kind);
    refuse(message.as_str())
}

impl Repository {
    /// The repository that a value stands for, or why it stands for none.
    pub fn from_json(value: &Json, read: &OptionsRead) -> (r: Result<Repository, Refusal>)
        ensures
            reading(r) == read_as(value@, *read),
    {
        match value {
            Json::Bool(b) => Ok(Repository::Disabled(*b)),
            Json::Object(entries) => {
                proof {
                    lemma_object_view(*entries);
                    lemma_key_at(entries_view(entries@), "type"@);
                }
                let ghost o = entries_view(entries@);
                assert(o.len() == entries.len());
                if entries.len() == 1 && value.get("type").is_none() {
                    assert(o[0] == (entries@[0].0@, entries@[0].1@));
                    if let Json::Bool(b) = &entries[0].1 {
                        return Ok(
                            Repository::NamedDisabled {
                                name: entries[0].0.clone(),
                                disabled: *b,
                            },
                        );
                    }
                }
                match value.get("type") {
                    Some(Json::Text(kind)) => read_kind(value, kind.as_str(), read),
                    _ => refuse("repository type is required"),
                }
            },
            _ => refuse("repository must be an object or boolean"),
        }
    }
}

// ---------------------------------------------------------------------------
// What holds of it
// ---------------------------------------------------------------------------
proof fn lemma_typed(kind: Seq<char>, url: Seq<char>, more: Entries)
    ensures
        value_of(typed(kind, url) + more, "type"@) == Some(JsonView::Text(kind)),
        value_of(typed(kind, url) + more, "url"@) == Some(JsonView::Text(url)),
        !lone_switch(typed(kind, url) + more),
{
    let o = typed(kind, url) + more;
    reveal_strlit("type");
    reveal_strlit("url");
    assert("type"@.len() != "url"@.len());
    assert(o[0] == ("type"@, JsonView::Text(kind)));
    assert(o[1] == ("url"@, JsonView::Text(url)));
    crate::json::lemma_key_at_unique(o, "type"@, 0);
    crate::json::lemma_key_at_unique(o, "url"@, 1);
}

/// What is written of a repository is read back as the same repository, where its options are
/// read back as they were. A switch with the name `type` is the one that is not: nothing can
/// be read from it.
pub proof fn law_written_repository_is_read_back(r: RepositoryView, read: OptionsRead)
    requires
        r matches RepositoryView::Composer { options, .. } ==> read.remote == Ok::<
            RepositoryOptions,
            String,
        >(options),
        r matches RepositoryView::Path { options, .. } ==> read.local == Ok::<
            PathRepositoryOptions,
            String,
        >(options),
        r matches RepositoryView::NamedDisabled { name, .. } ==> name != "type"@,
    ensures
        read_as(written(r), read) == Ok::<RepositoryView, Seq<char>>(r),
{
    let none = Entries::empty();
    reveal_strlit("composer");
    reveal_strlit("path");
    reveal_strlit("package");
    reveal_strlit("vcs");
    reveal_strlit("git");
    reveal_strlit("github");
    reveal_strlit("gitlab");
    reveal_strlit("bitbucket");
    reveal_strlit("artifact");
    lemma_kinds_differ();
    match r {
        RepositoryView::Composer { url, options } => {
            let o = written(r)->Object_0;
            let more = o.skip(2);
            assert(o =~= typed("composer"@, url) + more);
            lemma_typed("composer"@, url, more);
        },
        RepositoryView::Path { url, options } => {
            let o = written(r)->Object_0;
            let more = o.skip(2);
            assert(o =~= typed("path"@, url) + more);
            lemma_typed("path"@, url, more);
        },
        RepositoryView::Package { package } => {
            let o = written(r)->Object_0;
            reveal_strlit("type");
            assert("type"@.len() == 4);
            assert("package"@.len() == 7);
            assert(o[0] == ("type"@, JsonView::Text("package"@)));
            assert(o[1] == ("package"@, package));
            crate::json::lemma_key_at_unique(o, "type"@, 0);
            crate::json::lemma_key_at_unique(o, "package"@, 1);
        },
        RepositoryView::Disabled(_) => {},
        RepositoryView::NamedDisabled { name, disabled } => {
            let o = written(r)->Object_0;
            assert(o[0] == (name, JsonView::Bool(disabled)));
            crate::json::lemma_key_at_unique(o, "type"@, 1);
        },
        RepositoryView::Vcs { url } => {
            lemma_typed("vcs"@, url, none);
            assert(typed("vcs"@, url) + none =~= typed("vcs"@, url));
        },
        RepositoryView::Git { url } => {
            lemma_typed("git"@, url, none);
            assert(typed("git"@, url) + none =~= typed("git"@, url));
        },
        RepositoryView::GitHub { url } => {
            lemma_typed("github"@, url, none);
            assert(typed("github"@, url) + none =~= typed("github"@, url));
        },
        RepositoryView::GitLab { url } => {
            lemma_typed("gitlab"@, url, none);
            assert(typed("gitlab"@, url) + none =~= typed("gitlab"@, url));
        },
        RepositoryView::Bitbucket { url } => {
            lemma_typed("bitbucket"@, url, none);
            assert(typed("bitbucket"@, url) + none =~= typed("bitbucket"@, url));
        },
        RepositoryView::Artifact { url } => {
            lemma_typed("artifact"@, url, none);
            assert(typed("artifact"@, url) + none =~= typed("artifact"@, url));
        },
    }
}

proof fn lemma_kinds_differ()
    ensures
        "vcs"@ != "git"@,
        "github"@ != "gitlab"@,
        "composer"@ != "artifact"@,
        "vcs"@.len() == 3,
        "git"@.len() == 3,
        "path"@.len() == 4,
        "github"@.len() == 6,
        "gitlab"@.len() == 6,
        "package"@.len() == 7,
        "composer"@.len() == 8,
        "artifact"@.len() == 8,
        "bitbucket"@.len() == 9,
{
    reveal_strlit("composer");
    reveal_strlit("path");
    reveal_strlit("package");
    reveal_strlit("vcs");
    reveal_strlit("git");
    reveal_strlit("github");
    reveal_strlit("gitlab");
    reveal_strlit("bitbucket");
    reveal_strlit("artifact");
    assert("vcs"@[0] != "git"@[0]);
    assert("github"@[3] != "gitlab"@[3]);
    assert("composer"@[0] != "artifact"@[0]);
}

} // verus!
