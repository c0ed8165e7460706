//! The lock file as a JSON document: what is written of each field, and in which order.
use vstd::prelude::*;
use vstd::string::*;

use indexmap::IndexMap;

use crate::autoload::installed_json::{links_object, object_of_links};
use crate::json::{
    entries_view, items_view, lemma_array_view, lemma_entries_push, lemma_object_view,
    put_section, text, with_section, Entries, Json, JsonView, Number, NumberView,
};
use crate::json_text::{pretty, print_pretty};
use crate::links::{link_count, links, Pairs};
use crate::lock::{
    copy_value, flags_view, opt, opt_nonempty, opt_value, ComposerLock, LockAlias, LockArchive,
    LockAuthor, LockAutoload, LockDist, LockFunding, LockSource, LockedPackage,
};
use crate::named_values::{entries_of, named_values, value_count};
use crate::settings::values::{text_array, text_list};
use crate::text::views;

verus! {

// ---------------------------------------------------------------------------
// Texts, lists and maps
// ---------------------------------------------------------------------------
/// What stands in a value, where there is one.
pub open spec fn value_view(j: Option<Json>) -> Option<JsonView> {
    match j {
        Some(x) => Some(x@),
        None => None,
    }
}

/// A text that is always written.
pub open spec fn some_text(s: Seq<char>) -> Option<JsonView> {
    Some(JsonView::Text(s))
}

/// The text, where it is not empty.
pub open spec fn nonempty(s: Seq<char>) -> Option<Seq<char>> {
    if s.len() == 0 {
        None
    } else {
        Some(s)
    }
}

/// A text that is left out where there is none.
pub open spec fn text_document(s: Option<Seq<char>>) -> Option<JsonView> {
    match s {
        Some(t) => Some(JsonView::Text(t)),
        None => None,
    }
}

/// A truth value that is left out where there is none.
pub open spec fn flag_document(b: Option<bool>) -> Option<JsonView> {
    match b {
        Some(x) => Some(JsonView::Bool(x)),
        None => None,
    }
}

/// A list of texts that is left out where it is empty.
pub open spec fn texts_document(s: Seq<Seq<char>>) -> Option<JsonView> {
    if s.len() == 0 {
        None
    } else {
        Some(text_list(s))
    }
}

/// Links that are left out where there are none.
pub open spec fn links_document(s: Pairs) -> Option<JsonView> {
    if s.len() == 0 {
        None
    } else {
        Some(links_object(s))
    }
}

/// Values by name that are left out where there are none.
pub open spec fn values_document(s: Entries) -> Option<JsonView> {
    if s.len() == 0 {
        None
    } else {
        Some(JsonView::Object(s))
    }
}

fn text_value(s: &Option<String>) -> (r: Option<Json>)
    ensures
        value_view(r) == text_document(opt(*s)),
{
    match s {
        Some(t) => Some(text(t.as_str())),
        None => None,
    }
}

fn nonempty_text_value(s: &String) -> (r: Option<Json>)
    ensures
        value_view(r) == text_document(nonempty(s@)),
{
    if s.as_str().is_empty() {
        None
    } else {
        Some(text(s.as_str()))
    }
}

fn nonempty_value(s: &Option<String>) -> (r: Option<Json>)
    ensures
        value_view(r) == text_document(opt_nonempty(*s)),
{
    match s {
        Some(t) => nonempty_text_value(t),
        None => None,
    }
}

fn flag_value(b: Option<bool>) -> (r: Option<Json>)
    ensures
        value_view(r) == flag_document(b),
{
    match b {
        Some(x) => Some(Json::Bool(x)),
        None => None,
    }
}

fn texts_value(v: &Vec<String>) -> (r: Option<Json>)
    ensures
        value_view(r) == texts_document(views(v@)),
{
    assert(views(v@).len() == v.len());
    if v.len() == 0 {
        None
    } else {
        Some(text_array(v.as_slice()))
    }
}

fn links_value(m: &IndexMap<String, String>) -> (r: Option<Json>)
    ensures
        value_view(r) == links_document(links(*m)),
{
    if link_count(m) == 0 {
        None
    } else {
        Some(object_of_links(m))
    }
}

fn values_value(m: &IndexMap<String, Json>) -> (r: Option<Json>)
    ensures
        value_view(r) == values_document(named_values(*m)),
{
    if value_count(m) == 0 {
        None
    } else {
        let entries = entries_of(m);
        proof {
            lemma_object_view(entries);
        }
        Some(Json::Object(entries))
    }
}

// ---------------------------------------------------------------------------
// The parts of a package
// ---------------------------------------------------------------------------
/// The source of a package.
pub open spec fn source_entries(s: LockSource) -> Entries {
    let o = Seq::empty();
    let o = with_section(o, "type"@, some_text(s.source_type@));
    let o = with_section(o, "url"@, some_text(s.url@));
    let o = with_section(o, "reference"@, some_text(s.reference@));
    o
}

fn source_object(x: &LockSource) -> (r: Json)
    ensures
        r@ == JsonView::Object(source_entries(*x)),
{
    let mut e: Vec<(String, Json)> = Vec::new();
    assert(entries_view(e@) =~= Seq::empty());
    put_section(&mut e, "type", Some(text(x.source_type.as_str())));
    put_section(&mut e, "url", Some(text(x.url.as_str())));
    put_section(&mut e, "reference", Some(text(x.reference.as_str())));
    proof {
        lemma_object_view(e);
    }
    Json::Object(e)
}

/// The source of a package, where there is one.
pub open spec fn source_document(v: Option<LockSource>) -> Option<JsonView> {
    match v {
        Some(x) => Some(JsonView::Object(source_entries(x))),
        None => None,
    }
}

fn source_value(v: &Option<LockSource>) -> (r: Option<Json>)
    ensures
        value_view(r) == source_document(*v),
{
    match v {
        Some(x) => Some(source_object(x)),
        None => None,
    }
}

/// The checksum of an archive, empty where there is none.
pub open spec fn shasum_of(d: LockDist) -> Seq<char> {
    match d.shasum {
        Some(s) => s@,
        None => Seq::empty(),
    }
}

fn shasum_value(d: &LockDist) -> (r: Option<Json>)
    ensures
        value_view(r) == some_text(shasum_of(*d)),
{
    match &d.shasum {
        Some(s) => Some(text(s.as_str())),
        None => {
            let none = Json::Text(String::new());
            assert(none@->Text_0 =~= Seq::empty());
            Some(none)
        },
    }
}

/// The archive of a package.
pub open spec fn dist_entries(d: LockDist) -> Entries {
    let o = Seq::empty();
    let o = with_section(o, "type"@, some_text(d.dist_type@));
    let o = with_section(o, "url"@, some_text(d.url@));
    let o = with_section(o, "reference"@, text_document(opt(d.reference)));
    let o = with_section(o, "shasum"@, some_text(shasum_of(d)));
    o
}

fn dist_object(x: &LockDist) -> (r: Json)
    ensures
        r@ == JsonView::Object(dist_entries(*x)),
{
    let mut e: Vec<(String, Json)> = Vec::new();
    assert(entries_view(e@) =~= Seq::empty());
    put_section(&mut e, "type", Some(text(x.dist_type.as_str())));
    put_section(&mut e, "url", Some(text(x.url.as_str())));
    put_section(&mut e, "reference", text_value(&x.reference));
    put_section(&mut e, "shasum", shasum_value(x));
    proof {
        lemma_object_view(e);
    }
    Json::Object(e)
}

/// The archive of a package, where there is one.
pub open spec fn dist_document(v: Option<LockDist>) -> Option<JsonView> {
    match v {
        Some(x) => Some(JsonView::Object(dist_entries(x))),
        None => None,
    }
}

fn dist_value(v: &Option<LockDist>) -> (r: Option<Json>)
    ensures
        value_view(r) == dist_document(*v),
{
    match v {
        Some(x) => Some(dist_object(x)),
        None => None,
    }
}

/// How classes are found.
pub open spec fn autoload_entries(a: LockAutoload) -> Entries {
    let o = Seq::empty();
    let o = with_section(o, "psr-4"@, values_document(named_values(a.psr4)));
    let o = with_section(o, "psr-0"@, values_document(named_values(a.psr0)));
    let o = with_section(o, "classmap"@, texts_document(views(a.classmap@)));
    let o = with_section(o, "files"@, texts_document(views(a.files@)));
    let o = with_section(o, "exclude-from-classmap"@, texts_document(views(a.exclude_from_classmap@)));
    o
}

fn autoload_object(x: &LockAutoload) -> (r: Json)
    ensures
        r@ == JsonView::Object(autoload_entries(*x)),
{
    let mut e: Vec<(String, Json)> = Vec::new();
    assert(entries_view(e@) =~= Seq::empty());
    put_section(&mut e, "psr-4", values_value(&x.psr4));
    put_section(&mut e, "psr-0", values_value(&x.psr0));
    put_section(&mut e, "classmap", texts_value(&x.classmap));
    put_section(&mut e, "files", texts_value(&x.files));
    put_section(&mut e, "exclude-from-classmap", texts_value(&x.exclude_from_classmap));
    proof {
        lemma_object_view(e);
    }
    Json::Object(e)
}

/// How classes are found, left out where nothing is loaded.
pub open spec fn autoload_document(a: LockAutoload) -> Option<JsonView> {
    if a.nothing() {
        None
    } else {
        Some(JsonView::Object(autoload_entries(a)))
    }
}

fn autoload_value(a: &LockAutoload) -> (r: Option<Json>)
    ensures
        value_view(r) == autoload_document(*a),
{
    if a.is_empty() {
        None
    } else {
        Some(autoload_object(a))
    }
}

/// An author.
pub open spec fn author_entries(a: LockAuthor) -> Entries {
    let o = Seq::empty();
    let o = with_section(o, "name"@, some_text(a.name@));
    let o = with_section(o, "email"@, text_document(opt(a.email)));
    let o = with_section(o, "homepage"@, text_document(opt(a.homepage)));
    let o = with_section(o, "role"@, text_document(opt(a.role)));
    o
}

fn author_object(x: &LockAuthor) -> (r: Json)
    ensures
        r@ == JsonView::Object(author_entries(*x)),
{
    let mut e: Vec<(String, Json)> = Vec::new();
    assert(entries_view(e@) =~= Seq::empty());
    put_section(&mut e, "name", Some(text(x.name.as_str())));
    put_section(&mut e, "email", text_value(&x.email));
    put_section(&mut e, "homepage", text_value(&x.homepage));
    put_section(&mut e, "role", text_value(&x.role));
    proof {
        lemma_object_view(e);
    }
    Json::Object(e)
}

/// The authors.
pub open spec fn author_list(v: Seq<LockAuthor>) -> Seq<JsonView> {
    v.map_values(|x: LockAuthor| JsonView::Object(author_entries(x)))
}

fn author_items(v: &Vec<LockAuthor>) -> (r: Json)
    ensures
        r@ == JsonView::Array(author_list(v@)),
{
    let mut out: Vec<Json> = Vec::new();
    let mut i: usize = 0;
    while i < v.len()
        invariant
            i <= v.len(),
            items_view(out@) =~= author_list(v@).take(i as int),
        decreases v.len() - i,
    {
        let ghost before = out@;
        let one = author_object(&v[i]);
        out.push(one);
        i += 1;
        assert(items_view(out@) =~= items_view(before).push(one@));
        assert(items_view(out@) =~= author_list(v@).take(i as int));
    }
    proof {
        lemma_array_view(out);
        assert(items_view(out@) =~= author_list(v@));
    }
    Json::Array(out)
}

/// The list, left out where it is empty.
pub open spec fn authors_document(v: Seq<LockAuthor>) -> Option<JsonView> {
    if v.len() == 0 {
        None
    } else {
        Some(JsonView::Array(author_list(v)))
    }
}

fn authors_value(v: &Vec<LockAuthor>) -> (r: Option<Json>)
    ensures
        value_view(r) == authors_document(v@),
{
    if v.len() == 0 {
        None
    } else {
        Some(author_items(v))
    }
}

/// A way to fund a package.
pub open spec fn way_entries(f: LockFunding) -> Entries {
    let o = Seq::empty();
    let o = with_section(o, "url"@, some_text(f.url@));
    let o = with_section(o, "type"@, some_text(f.funding_type@));
    o
}

fn way_object(x: &LockFunding) -> (r: Json)
    ensures
        r@ == JsonView::Object(way_entries(*x)),
{
    let mut e: Vec<(String, Json)> = Vec::new();
    assert(entries_view(e@) =~= Seq::empty());
    put_section(&mut e, "url", Some(text(x.url.as_str())));
    put_section(&mut e, "type", Some(text(x.funding_type.as_str())));
    proof {
        lemma_object_view(e);
    }
    Json::Object(e)
}

/// The ways to fund a package.
pub open spec fn way_list(v: Seq<LockFunding>) -> Seq<JsonView> {
    v.map_values(|x: LockFunding| JsonView::Object(way_entries(x)))
}

fn way_items(v: &Vec<LockFunding>) -> (r: Json)
    ensures
        r@ == JsonView::Array(way_list(v@)),
{
    let mut out: Vec<Json> = Vec::new();
    let mut i: usize = 0;
    while i < v.len()
        invariant
            i <= v.len(),
            items_view(out@) =~= way_list(v@).take(i as int),
        decreases v.len() - i,
    {
        let ghost before = out@;
        let one = way_object(&v[i]);
        out.push(one);
        i += 1;
        assert(items_view(out@) =~= items_view(before).push(one@));
        assert(items_view(out@) =~= way_list(v@).take(i as int));
    }
    proof {
        lemma_array_view(out);
        assert(items_view(out@) =~= way_list(v@));
    }
    Json::Array(out)
}

/// The list, left out where it is empty.
pub open spec fn funding_document(v: Seq<LockFunding>) -> Option<JsonView> {
    if v.len() == 0 {
        None
    } else {
        Some(JsonView::Array(way_list(v)))
    }
}

fn funding_value(v: &Vec<LockFunding>) -> (r: Option<Json>)
    ensures
        value_view(r) == funding_document(v@),
{
    if v.len() == 0 {
        None
    } else {
        Some(way_items(v))
    }
}

/// The name of an archive, null where it has none.
pub open spec fn archive_name(a: LockArchive) -> JsonView {
    match a.name {
        Some(n) => JsonView::Text(n@),
        None => JsonView::Null,
    }
}

fn archive_name_value(a: &LockArchive) -> (r: Option<Json>)
    ensures
        value_view(r) == Some(archive_name(*a)),
{
    match &a.name {
        Some(n) => Some(text(n.as_str())),
        None => Some(Json::Null),
    }
}

/// How archives of a package are made.
pub open spec fn archive_entries(a: LockArchive) -> Entries {
    let o = Seq::empty();
    let o = with_section(o, "name"@, Some(archive_name(a)));
    let o = with_section(o, "exclude"@, Some(text_list(views(a.exclude@))));
    o
}

fn archive_object(x: &LockArchive) -> (r: Json)
    ensures
        r@ == JsonView::Object(archive_entries(*x)),
{
    let mut e: Vec<(String, Json)> = Vec::new();
    assert(entries_view(e@) =~= Seq::empty());
    put_section(&mut e, "name", archive_name_value(x));
    put_section(&mut e, "exclude", Some(text_array(x.exclude.as_slice())));
    proof {
        lemma_object_view(e);
    }
    Json::Object(e)
}

/// How archives of a package are made, where there is one.
pub open spec fn archive_document(v: Option<LockArchive>) -> Option<JsonView> {
    match v {
        Some(x) => Some(JsonView::Object(archive_entries(x))),
        None => None,
    }
}

fn archive_value(v: &Option<LockArchive>) -> (r: Option<Json>)
    ensures
        value_view(r) == archive_document(*v),
{
    match v {
        Some(x) => Some(archive_object(x)),
        None => None,
    }
}

/// What is said of abandonment: nothing for `null` and `false`.
pub open spec fn abandoned_document(v: JsonView) -> Option<JsonView> {
    if v is Null || v == JsonView::Bool(false) {
        None
    } else {
        Some(v)
    }
}

fn abandoned_value(j: &Json) -> (r: Option<Json>)
    ensures
        value_view(r) == abandoned_document(j@),
{
    match j {
        Json::Null => None,
        Json::Bool(b) => if *b {
            Some(Json::Bool(true))
        } else {
            None
        },
        _ => Some(crate::json::copy(j)),
    }
}

// ---------------------------------------------------------------------------
// A package
// ---------------------------------------------------------------------------
/// What a package is, and what it is linked to.
pub open spec fn named_entries(o: Entries, p: LockedPackage) -> Entries {
    let o = with_section(o, "name"@, some_text(p.name@));
    let o = with_section(o, "version"@, some_text(p.version@));
    let o = with_section(o, "source"@, source_document(p.source));
    let o = with_section(o, "dist"@, dist_document(p.dist));
    let o = with_section(o, "require"@, links_document(links(p.require)));
    let o = with_section(o, "conflict"@, links_document(links(p.conflict)));
    let o = with_section(o, "provide"@, links_document(links(p.provide)));
    let o = with_section(o, "replace"@, links_document(links(p.replace)));
    let o = with_section(o, "require-dev"@, links_document(links(p.require_dev)));
    let o = with_section(o, "suggest"@, links_document(links(p.suggest)));
    o
}

fn put_named(e: &mut Vec<(String, Json)>, x: &LockedPackage)
    ensures
        entries_view(final(e)@) == named_entries(entries_view(old(e)@), *x),
{
    put_section(e, "name", Some(text(x.name.as_str())));
    put_section(e, "version", Some(text(x.version.as_str())));
    put_section(e, "source", source_value(&x.source));
    put_section(e, "dist", dist_value(&x.dist));
    put_section(e, "require", links_value(&x.require));
    put_section(e, "conflict", links_value(&x.conflict));
    put_section(e, "provide", links_value(&x.provide));
    put_section(e, "replace", links_value(&x.replace));
    put_section(e, "require-dev", links_value(&x.require_dev));
    put_section(e, "suggest", links_value(&x.suggest));
}

/// How a package is loaded, and under which terms.
pub open spec fn loaded_entries(o: Entries, p: LockedPackage) -> Entries {
    let o = with_section(o, "bin"@, texts_document(views(p.bin@)));
    let o = with_section(o, "type"@, some_text(p.package_type@));
    let o = with_section(o, "extra"@, opt_value(p.extra));
    let o = with_section(o, "autoload"@, autoload_document(p.autoload));
    let o = with_section(o, "autoload-dev"@, autoload_document(p.autoload_dev));
    let o = with_section(o, "notification-url"@, text_document(opt(p.notification_url)));
    let o = with_section(o, "license"@, texts_document(views(p.license@)));
    let o = with_section(o, "authors"@, authors_document(p.authors@));
    o
}

fn put_loaded(e: &mut Vec<(String, Json)>, x: &LockedPackage)
    ensures
        entries_view(final(e)@) == loaded_entries(entries_view(old(e)@), *x),
{
    put_section(e, "bin", texts_value(&x.bin));
    put_section(e, "type", Some(text(x.package_type.as_str())));
    put_section(e, "extra", copy_value(&x.extra));
    put_section(e, "autoload", autoload_value(&x.autoload));
    put_section(e, "autoload-dev", autoload_value(&x.autoload_dev));
    put_section(e, "notification-url", text_value(&x.notification_url));
    put_section(e, "license", texts_value(&x.license));
    put_section(e, "authors", authors_value(&x.authors));
}

/// What else is known of a package.
pub open spec fn described_entries(o: Entries, p: LockedPackage) -> Entries {
    let o = with_section(o, "description"@, text_document(opt_nonempty(p.description)));
    let o = with_section(o, "homepage"@, text_document(opt_nonempty(p.homepage)));
    let o = with_section(o, "keywords"@, texts_document(views(p.keywords@)));
    let o = with_section(o, "support"@, links_document(links(p.support)));
    let o = with_section(o, "funding"@, funding_document(p.funding@));
    let o = with_section(o, "time"@, text_document(opt(p.time)));
    let o = with_section(o, "abandoned"@, abandoned_document(p.abandoned@));
    let o = with_section(o, "archive"@, archive_document(p.archive));
    let o = with_section(o, "installation-source"@, text_document(opt(p.installation_source)));
    let o = with_section(o, "default-branch"@, flag_document(p.default_branch));
    let o = with_section(o, "transport-options"@, opt_value(p.transport_options));
    o
}

fn put_described(e: &mut Vec<(String, Json)>, x: &LockedPackage)
    ensures
        entries_view(final(e)@) == described_entries(entries_view(old(e)@), *x),
{
    put_section(e, "description", nonempty_value(&x.description));
    put_section(e, "homepage", nonempty_value(&x.homepage));
    put_section(e, "keywords", texts_value(&x.keywords));
    put_section(e, "support", links_value(&x.support));
    put_section(e, "funding", funding_value(&x.funding));
    put_section(e, "time", text_value(&x.time));
    put_section(e, "abandoned", abandoned_value(&x.abandoned));
    put_section(e, "archive", archive_value(&x.archive));
    put_section(e, "installation-source", text_value(&x.installation_source));
    put_section(e, "default-branch", flag_value(x.default_branch));
    put_section(e, "transport-options", copy_value(&x.transport_options));
}

/// A package.
pub open spec fn package_entries(p: LockedPackage) -> Entries {
    described_entries(loaded_entries(named_entries(Seq::empty(), p), p), p)
}

/// What is written of a package.
pub fn entries_written(x: &LockedPackage) -> (r: Vec<(String, Json)>)
    ensures
        entries_view(r@) == package_entries(*x),
{
    let mut e: Vec<(String, Json)> = Vec::new();
    assert(entries_view(e@) =~= Seq::empty());
    put_named(&mut e, x);
    put_loaded(&mut e, x);
    put_described(&mut e, x);
    e
}

fn package_object(x: &LockedPackage) -> (r: Json)
    ensures
        r@ == JsonView::Object(package_entries(*x)),
{
    let e = entries_written(x);
    proof {
        lemma_object_view(e);
    }
    Json::Object(e)
}

impl LockedPackage {
    /// The package as the file has it.
    pub fn to_value(&self) -> (r: Json)
        ensures
            r@ == JsonView::Object(package_entries(*self)),
    {
        package_object(self)
    }
}

// ---------------------------------------------------------------------------
// The file
// ---------------------------------------------------------------------------
/// The packages.
pub open spec fn package_list(v: Seq<LockedPackage>) -> Seq<JsonView> {
    v.map_values(|x: LockedPackage| JsonView::Object(package_entries(x)))
}

fn package_items(v: &Vec<LockedPackage>) -> (r: Json)
    ensures
        r@ == JsonView::Array(package_list(v@)),
{
    let mut out: Vec<Json> = Vec::new();
    let mut i: usize = 0;
    while i < v.len()
        invariant
            i <= v.len(),
            items_view(out@) =~= package_list(v@).take(i as int),
        decreases v.len() - i,
    {
        let ghost before = out@;
        let one = package_object(&v[i]);
        out.push(one);
        i += 1;
        assert(items_view(out@) =~= items_view(before).push(one@));
        assert(items_view(out@) =~= package_list(v@).take(i as int));
    }
    proof {
        lemma_array_view(out);
        assert(items_view(out@) =~= package_list(v@));
    }
    Json::Array(out)
}

/// A version under another name.
pub open spec fn alias_entries(a: LockAlias) -> Entries {
    let o = Seq::empty();
    let o = with_section(o, "package"@, some_text(a.package@));
    let o = with_section(o, "version"@, some_text(a.version@));
    let o = with_section(o, "alias"@, some_text(a.alias@));
    let o = with_section(o, "alias_normalized"@, some_text(a.alias_normalized@));
    o
}

fn alias_object(x: &LockAlias) -> (r: Json)
    ensures
        r@ == JsonView::Object(alias_entries(*x)),
{
    let mut e: Vec<(String, Json)> = Vec::new();
    assert(entries_view(e@) =~= Seq::empty());
    put_section(&mut e, "package", Some(text(x.package.as_str())));
    put_section(&mut e, "version", Some(text(x.version.as_str())));
    put_section(&mut e, "alias", Some(text(x.alias.as_str())));
    put_section(&mut e, "alias_normalized", Some(text(x.alias_normalized.as_str())));
    proof {
        lemma_object_view(e);
    }
    Json::Object(e)
}

/// The versions under other names.
pub open spec fn alias_list(v: Seq<LockAlias>) -> Seq<JsonView> {
    v.map_values(|x: LockAlias| JsonView::Object(alias_entries(x)))
}

fn alias_items(v: &Vec<LockAlias>) -> (r: Json)
    ensures
        r@ == JsonView::Array(alias_list(v@)),
{
    let mut out: Vec<Json> = Vec::new();
    let mut i: usize = 0;
    while i < v.len()
        invariant
            i <= v.len(),
            items_view(out@) =~= alias_list(v@).take(i as int),
        decreases v.len() - i,
    {
        let ghost before = out@;
        let one = alias_object(&v[i]);
        out.push(one);
        i += 1;
        assert(items_view(out@) =~= items_view(before).push(one@));
        assert(items_view(out@) =~= alias_list(v@).take(i as int));
    }
    proof {
        lemma_array_view(out);
        assert(items_view(out@) =~= alias_list(v@));
    }
    Json::Array(out)
}

/// The stabilities of single packages.
pub open spec fn flags_document(s: Seq<(Seq<char>, u8)>) -> JsonView {
    JsonView::Object(
        s.map_values(
            |f: (Seq<char>, u8)| (f.0, JsonView::Number(NumberView::Unsigned(f.1 as u64))),
        ),
    )
}

fn flags_value(v: &Vec<(String, u8)>) -> (r: Json)
    ensures
        r@ == flags_document(flags_view(v@)),
{
    let ghost want = flags_document(flags_view(v@))->Object_0;
    let mut out: Vec<(String, Json)> = Vec::new();
    let mut i: usize = 0;
    while i < v.len()
        invariant
            i <= v.len(),
            want == flags_document(flags_view(v@))->Object_0,
            entries_view(out@) =~= want.take(i as int),
        decreases v.len() - i,
    {
        let one = (v[i].0.clone(), Json::Number(Number::Unsigned(v[i].1 as u64)));
        proof {
            lemma_entries_push(out@, one);
        }
        out.push(one);
        i += 1;
        assert(entries_view(out@) =~= want.take(i as int));
    }
    proof {
        assert(entries_view(out@) =~= want);
        lemma_object_view(out);
    }
    Json::Object(out)
}

/// A lock file.
pub open spec fn lock_entries(l: ComposerLock) -> Entries {
    let o = Seq::empty();
    let o = with_section(o, "_readme"@, texts_document(views(l.readme@)));
    let o = with_section(o, "content-hash"@, some_text(l.content_hash@));
    let o = with_section(o, "packages"@, Some(JsonView::Array(package_list(l.packages@))));
    let o = with_section(o, "packages-dev"@, Some(JsonView::Array(package_list(l.packages_dev@))));
    let o = with_section(o, "aliases"@, Some(JsonView::Array(alias_list(l.aliases@))));
    let o = with_section(o, "minimum-stability"@, some_text(l.minimum_stability@));
    let o = with_section(o, "stability-flags"@, Some(flags_document(flags_view(l.stability_flags@))));
    let o = with_section(o, "prefer-stable"@, flag_document(Some(l.prefer_stable)));
    let o = with_section(o, "prefer-lowest"@, flag_document(Some(l.prefer_lowest)));
    let o = with_section(o, "platform"@, links_document(links(l.platform)));
    let o = with_section(o, "platform-dev"@, links_document(links(l.platform_dev)));
    let o = with_section(o, "platform-overrides"@, links_document(links(l.platform_overrides)));
    let o = with_section(o, "plugin-api-version"@, text_document(nonempty(l.plugin_api_version@)));
    o
}

fn lock_object(x: &ComposerLock) -> (r: Json)
    ensures
        r@ == JsonView::Object(lock_entries(*x)),
{
    let mut e: Vec<(String, Json)> = Vec::new();
    assert(entries_view(e@) =~= Seq::empty());
    put_section(&mut e, "_readme", texts_value(&x.readme));
    put_section(&mut e, "content-hash", Some(text(x.content_hash.as_str())));
    put_section(&mut e, "packages", Some(package_items(&x.packages)));
    put_section(&mut e, "packages-dev", Some(package_items(&x.packages_dev)));
    put_section(&mut e, "aliases", Some(alias_items(&x.aliases)));
    put_section(&mut e, "minimum-stability", Some(text(x.minimum_stability.as_str())));
    put_section(&mut e, "stability-flags", Some(flags_value(&x.stability_flags)));
    put_section(&mut e, "prefer-stable", flag_value(Some(x.prefer_stable)));
    put_section(&mut e, "prefer-lowest", flag_value(Some(x.prefer_lowest)));
    put_section(&mut e, "platform", links_value(&x.platform));
    put_section(&mut e, "platform-dev", links_value(&x.platform_dev));
    put_section(&mut e, "platform-overrides", links_value(&x.platform_overrides));
    put_section(&mut e, "plugin-api-version", nonempty_text_value(&x.plugin_api_version));
    proof {
        lemma_object_view(e);
    }
    Json::Object(e)
}

impl ComposerLock {
    /// The document.
    pub fn to_value(&self) -> (r: Json)
        ensures
            r@ == JsonView::Object(lock_entries(*self)),
    {
        lock_object(self)
    }

    /// The text of the document.
    pub fn to_json(&self) -> (r: String)
        ensures
            r@ == pretty(JsonView::Object(lock_entries(*self))),
    {
        print_pretty(&lock_object(self))
    }
}

} // verus!
