//! JSON documents as they stand in files: one object, indented, with a line break at the end.
use vstd::prelude::*;
use vstd::string::*;

use crate::json::{
    add_entry, entries_view, lemma_object_view, Entries, Json, JsonView,
};
use crate::json_text::{depth_read, is_plain, parse, parsed, pretty, print_pretty};

verus! {

/// Why a text is no document.
#[derive(Clone, Copy, Debug, PartialEq, Eq, Structural)]
pub enum DocumentFault {
    /// The text is not JSON.
    NoJson,
    /// The text is JSON, but not an object.
    NoObject,
}

/// The value in a text, where the text is JSON.
pub fn read_value(text: &str) -> (r: Option<Json>)
    ensures
        r.is_some() == parsed(text@).is_some(),
        r matches Some(j) ==> j@ == parsed(text@)->0,
{
    parse(text)
}

/// A document from what was read of its text.
pub open spec fn document_from(value: Option<JsonView>) -> Result<JsonView, DocumentFault> {
    match value {
        None => Err(DocumentFault::NoJson),
        Some(JsonView::Object(o)) => Ok(JsonView::Object(o)),
        Some(_) => Err(DocumentFault::NoObject),
    }
}

/// What a text says as a document.
pub open spec fn document_of(text: Seq<char>) -> Result<JsonView, DocumentFault> {
    document_from(parsed(text))
}

/// The document where the value read from a text is an object.
pub fn as_document(value: Option<Json>) -> (r: Result<Json, DocumentFault>)
    ensures
        match document_from(
            match value {
                Some(j) => Some(j@),
                None => None,
            },
        ) {
            Ok(v) => r matches Ok(j) && j@ == v,
            Err(fault) => r == Err::<Json, DocumentFault>(fault),
        },
{
    match value {
        None => Err(DocumentFault::NoJson),
        Some(j) => match &j {
            Json::Object(_) => Ok(j),
            _ => Err(DocumentFault::NoObject),
        },
    }
}

/// The document in a text.
pub fn read_document(text: &str) -> (r: Result<Json, DocumentFault>)
    ensures
        match document_of(text@) {
            Ok(v) => r matches Ok(j) && j@ == v,
            Err(fault) => r == Err::<Json, DocumentFault>(fault),
        },
{
    as_document(parse(text))
}

impl DocumentFault {
    /// What is said of a file.
    pub open spec fn told(self, path: Seq<char>) -> Seq<char> {
        match self {
            DocumentFault::NoJson => path + " does not contain valid JSON"@,
            DocumentFault::NoObject => path + " must contain a JSON object"@,
        }
    }

    pub fn message(&self, path: &str) -> (r: String)
        ensures
            r@ == self.told(path@),
    {
        let mut r = path.to_owned();
        match self {
            DocumentFault::NoJson => r.append(" does not contain valid JSON"),
            DocumentFault::NoObject => r.append(" must contain a JSON object"),
        }
        r
    }
}

/// The text of a file with a document. That of a plain document says that document.
pub fn document_text(document: &Json) -> (r: String)
    ensures
        r@ == pretty(document@).push('\n'),
        is_plain(document@, depth_read()) && document@ is Object ==> document_of(r@) == Ok::<
            JsonView,
            DocumentFault,
        >(document@),
{
    let mut r = print_pretty(document);
    r.push('\n');
    r
}

/// A new configuration: no settings.
pub open spec fn new_config() -> JsonView {
    JsonView::Object(seq![("config"@, JsonView::Object(Seq::empty()))])
}

/// The kinds of credentials, in the order of a new file.
pub open spec fn credential_kinds() -> Seq<Seq<char>> {
    seq![
        "bitbucket-oauth"@,
        "github-oauth"@,
        "gitlab-oauth"@,
        "gitlab-token"@,
        "http-basic"@,
        "bearer"@,
        "forgejo-token"@,
    ]
}

/// New credentials: none of any kind.
pub open spec fn new_auth() -> JsonView {
    JsonView::Object(
        credential_kinds().map_values(|k: Seq<char>| (k, JsonView::Object(Seq::empty()))),
    )
}

fn empty() -> (r: Json)
    ensures
        r@ == JsonView::Object(Seq::empty()),
{
    let none: Vec<(String, Json)> = Vec::new();
    proof {
        lemma_object_view(none);
        assert(entries_view(none@) =~= Entries::empty());
    }
    Json::Object(none)
}

pub fn new_config_document() -> (r: Json)
    ensures
        r@ == new_config(),
{
    let mut e: Vec<(String, Json)> = Vec::new();
    assert(entries_view(e@) =~= Entries::empty());
    add_entry(&mut e, "config", empty());
    proof {
        lemma_object_view(e);
        assert(entries_view(e@) =~= seq![("config"@, JsonView::Object(Seq::empty()))]);
    }
    Json::Object(e)
}

pub fn new_auth_document() -> (r: Json)
    ensures
        r@ == new_auth(),
{
    let mut e: Vec<(String, Json)> = Vec::new();
    assert(entries_view(e@) =~= Entries::empty());
    add_entry(&mut e, "bitbucket-oauth", empty());
    add_entry(&mut e, "github-oauth", empty());
    add_entry(&mut e, "gitlab-oauth", empty());
    add_entry(&mut e, "gitlab-token", empty());
    add_entry(&mut e, "http-basic", empty());
    add_entry(&mut e, "bearer", empty());
    add_entry(&mut e, "forgejo-token", empty());
    proof {
        lemma_object_view(e);
        assert(entries_view(e@) =~= new_auth()->Object_0);
    }
    Json::Object(e)
}

} // verus!
