//! What holds of a lock file that is written: whatever is known of the project and of its packages
//! stands in it.
use vstd::prelude::*;

use crate::json::{with_section, Entries, JsonView, NumberView};
use crate::links::{links, Pairs};
use crate::lock::{
    flags_view, opt, opt_nonempty, opt_value, ComposerLock, LockAlias, LockAuthor, LockAutoload,
    LockDist, LockFunding, LockSource, LockedPackage,
};
use crate::lock_document::{
    abandoned_document, alias_entries, alias_list, archive_document, archive_entries,
    author_entries, author_list, authors_document, autoload_document, autoload_entries,
    described_entries, dist_document, dist_entries, flag_document, flags_document,
    funding_document, links_document, loaded_entries, lock_entries, named_entries, nonempty,
    package_entries, package_list, shasum_of, some_text, source_document, source_entries,
    text_document, texts_document, values_document, way_entries, way_list,
};
use crate::named_values::named_values;
use crate::settings::values::text_list;
use crate::text::views;

verus! {

/// The document has the value under the key.
pub open spec fn told(e: Entries, key: Seq<char>, value: JsonView) -> bool {
    exists|i: int| 0 <= i < e.len() && #[trigger] e[i] == (key, value)
}

/// The links as a document: under each name its constraint, in the same order.
pub open spec fn as_object(l: Pairs) -> JsonView {
    JsonView::Object(Seq::new(l.len(), |i: int| (l[i].0, JsonView::Text(l[i].1))))
}

spec fn grows(a: Entries, b: Entries) -> bool {
    forall|key: Seq<char>, value: JsonView| told(a, key, value) ==> #[trigger] told(b, key, value)
}

proof fn lemma_section(o: Entries, key: Seq<char>, section: Option<JsonView>)
    ensures
        grows(o, with_section(o, key, section)),
        section matches Some(v) ==> told(with_section(o, key, section), key, v),
{
    let r = with_section(o, key, section);
    assert forall|k: Seq<char>, v: JsonView| told(o, k, v) implies #[trigger] told(r, k, v) by {
        let i = choose|i: int| 0 <= i < o.len() && #[trigger] o[i] == (k, v);
        assert(r[i] == (k, v));
    }
    if let Some(v) = section {
        assert(r[o.len() as int] == (key, v));
    }
}

proof fn lemma_as_object(l: Pairs)
    ensures
        l.len() > 0 ==> links_document(l) == Some(as_object(l)),
{
    if l.len() > 0 {
        assert(links_document(l)->0->Object_0 =~= as_object(l)->Object_0);
    }
}

proof fn lemma_named_entries(o: Entries, p: LockedPackage)
    ensures
        grows(o, named_entries(o, p)),
        ({
            let e = named_entries(o, p);
            &&& (told(e, "name"@, JsonView::Text(p.name@)))
            &&& (told(e, "version"@, JsonView::Text(p.version@)))
            &&& (p.source is Some ==> told(e, "source"@, JsonView::Object(source_entries(p.source->0))))
            &&& (p.dist is Some ==> told(e, "dist"@, JsonView::Object(dist_entries(p.dist->0))))
            &&& (links(p.require).len() > 0 ==> told(e, "require"@, as_object(links(p.require))))
            &&& (links(p.conflict).len() > 0 ==> told(e, "conflict"@, as_object(links(p.conflict))))
            &&& (links(p.provide).len() > 0 ==> told(e, "provide"@, as_object(links(p.provide))))
            &&& (links(p.replace).len() > 0 ==> told(e, "replace"@, as_object(links(p.replace))))
            &&& (links(p.require_dev).len() > 0 ==> told(e, "require-dev"@, as_object(links(p.require_dev))))
            &&& (links(p.suggest).len() > 0 ==> told(e, "suggest"@, as_object(links(p.suggest))))
        }),
{
    lemma_as_object(links(p.require));
    lemma_as_object(links(p.conflict));
    lemma_as_object(links(p.provide));
    lemma_as_object(links(p.replace));
    lemma_as_object(links(p.require_dev));
    lemma_as_object(links(p.suggest));
    let e0 = o;
    let e1 = with_section(e0, "name"@, some_text(p.name@));
    let e2 = with_section(e1, "version"@, some_text(p.version@));
    let e3 = with_section(e2, "source"@, source_document(p.source));
    let e4 = with_section(e3, "dist"@, dist_document(p.dist));
    let e5 = with_section(e4, "require"@, links_document(links(p.require)));
    let e6 = with_section(e5, "conflict"@, links_document(links(p.conflict)));
    let e7 = with_section(e6, "provide"@, links_document(links(p.provide)));
    let e8 = with_section(e7, "replace"@, links_document(links(p.replace)));
    let e9 = with_section(e8, "require-dev"@, links_document(links(p.require_dev)));
    let e10 = with_section(e9, "suggest"@, links_document(links(p.suggest)));
    lemma_section(e0, "name"@, some_text(p.name@));
    lemma_section(e1, "version"@, some_text(p.version@));
    lemma_section(e2, "source"@, source_document(p.source));
    lemma_section(e3, "dist"@, dist_document(p.dist));
    lemma_section(e4, "require"@, links_document(links(p.require)));
    lemma_section(e5, "conflict"@, links_document(links(p.conflict)));
    lemma_section(e6, "provide"@, links_document(links(p.provide)));
    lemma_section(e7, "replace"@, links_document(links(p.replace)));
    lemma_section(e8, "require-dev"@, links_document(links(p.require_dev)));
    lemma_section(e9, "suggest"@, links_document(links(p.suggest)));
    assert(named_entries(o, p) == e10);

}

proof fn lemma_loaded_entries(o: Entries, p: LockedPackage)
    ensures
        grows(o, loaded_entries(o, p)),
        ({
            let e = loaded_entries(o, p);
            &&& (p.bin@.len() > 0 ==> told(e, "bin"@, text_list(views(p.bin@))))
            &&& (told(e, "type"@, JsonView::Text(p.package_type@)))
            &&& (p.extra is Some ==> told(e, "extra"@, p.extra->0@))
            &&& (!p.autoload.nothing() ==> told(e, "autoload"@, JsonView::Object(autoload_entries(p.autoload))))
            &&& (!p.autoload_dev.nothing() ==> told(e, "autoload-dev"@, JsonView::Object(autoload_entries(p.autoload_dev))))
            &&& (p.notification_url is Some ==> told(e, "notification-url"@, JsonView::Text(p.notification_url->0@)))
            &&& (p.license@.len() > 0 ==> told(e, "license"@, text_list(views(p.license@))))
            &&& (p.authors@.len() > 0 ==> told(e, "authors"@, JsonView::Array(author_list(p.authors@))))
        }),
{
    let e0 = o;
    let e1 = with_section(e0, "bin"@, texts_document(views(p.bin@)));
    let e2 = with_section(e1, "type"@, some_text(p.package_type@));
    let e3 = with_section(e2, "extra"@, opt_value(p.extra));
    let e4 = with_section(e3, "autoload"@, autoload_document(p.autoload));
    let e5 = with_section(e4, "autoload-dev"@, autoload_document(p.autoload_dev));
    let e6 = with_section(e5, "notification-url"@, text_document(opt(p.notification_url)));
    let e7 = with_section(e6, "license"@, texts_document(views(p.license@)));
    let e8 = with_section(e7, "authors"@, authors_document(p.authors@));
    lemma_section(e0, "bin"@, texts_document(views(p.bin@)));
    lemma_section(e1, "type"@, some_text(p.package_type@));
    lemma_section(e2, "extra"@, opt_value(p.extra));
    lemma_section(e3, "autoload"@, autoload_document(p.autoload));
    lemma_section(e4, "autoload-dev"@, autoload_document(p.autoload_dev));
    lemma_section(e5, "notification-url"@, text_document(opt(p.notification_url)));
    lemma_section(e6, "license"@, texts_document(views(p.license@)));
    lemma_section(e7, "authors"@, authors_document(p.authors@));
    assert(loaded_entries(o, p) == e8);

}

proof fn lemma_described_entries(o: Entries, p: LockedPackage)
    ensures
        grows(o, described_entries(o, p)),
        ({
            let e = described_entries(o, p);
            &&& (p.description is Some && p.description->0@.len() > 0 ==> told(e, "description"@, JsonView::Text(p.description->0@)))
            &&& (p.homepage is Some && p.homepage->0@.len() > 0 ==> told(e, "homepage"@, JsonView::Text(p.homepage->0@)))
            &&& (p.keywords@.len() > 0 ==> told(e, "keywords"@, text_list(views(p.keywords@))))
            &&& (links(p.support).len() > 0 ==> told(e, "support"@, as_object(links(p.support))))
            &&& (p.funding@.len() > 0 ==> told(e, "funding"@, JsonView::Array(way_list(p.funding@))))
            &&& (p.time is Some ==> told(e, "time"@, JsonView::Text(p.time->0@)))
            &&& (!(p.abandoned@ is Null) && p.abandoned@ != JsonView::Bool(false) ==> told(e, "abandoned"@, p.abandoned@))
            &&& (p.archive is Some ==> told(e, "archive"@, JsonView::Object(archive_entries(p.archive->0))))
            &&& (p.installation_source is Some ==> told(e, "installation-source"@, JsonView::Text(p.installation_source->0@)))
            &&& (p.default_branch is Some ==> told(e, "default-branch"@, JsonView::Bool(p.default_branch->0)))
            &&& (p.transport_options is Some ==> told(e, "transport-options"@, p.transport_options->0@))
        }),
{
    lemma_as_object(links(p.support));
    let e0 = o;
    let e1 = with_section(e0, "description"@, text_document(opt_nonempty(p.description)));
    let e2 = with_section(e1, "homepage"@, text_document(opt_nonempty(p.homepage)));
    let e3 = with_section(e2, "keywords"@, texts_document(views(p.keywords@)));
    let e4 = with_section(e3, "support"@, links_document(links(p.support)));
    let e5 = with_section(e4, "funding"@, funding_document(p.funding@));
    let e6 = with_section(e5, "time"@, text_document(opt(p.time)));
    let e7 = with_section(e6, "abandoned"@, abandoned_document(p.abandoned@));
    let e8 = with_section(e7, "archive"@, archive_document(p.archive));
    let e9 = with_section(e8, "installation-source"@, text_document(opt(p.installation_source)));
    let e10 = with_section(e9, "default-branch"@, flag_document(p.default_branch));
    let e11 = with_section(e10, "transport-options"@, opt_value(p.transport_options));
    lemma_section(e0, "description"@, text_document(opt_nonempty(p.description)));
    lemma_section(e1, "homepage"@, text_document(opt_nonempty(p.homepage)));
    lemma_section(e2, "keywords"@, texts_document(views(p.keywords@)));
    lemma_section(e3, "support"@, links_document(links(p.support)));
    lemma_section(e4, "funding"@, funding_document(p.funding@));
    lemma_section(e5, "time"@, text_document(opt(p.time)));
    lemma_section(e6, "abandoned"@, abandoned_document(p.abandoned@));
    lemma_section(e7, "archive"@, archive_document(p.archive));
    lemma_section(e8, "installation-source"@, text_document(opt(p.installation_source)));
    lemma_section(e9, "default-branch"@, flag_document(p.default_branch));
    lemma_section(e10, "transport-options"@, opt_value(p.transport_options));
    assert(described_entries(o, p) == e11);

}

/// Whatever the lock file knows of a package is written.
pub proof fn law_everything_known_of_a_package_is_written(p: LockedPackage)
    ensures
        ({
            let e = package_entries(p);
            &&& (told(e, "name"@, JsonView::Text(p.name@)))
            &&& (told(e, "version"@, JsonView::Text(p.version@)))
            &&& (p.source is Some ==> told(e, "source"@, JsonView::Object(source_entries(p.source->0))))
            &&& (p.dist is Some ==> told(e, "dist"@, JsonView::Object(dist_entries(p.dist->0))))
            &&& (links(p.require).len() > 0 ==> told(e, "require"@, as_object(links(p.require))))
            &&& (links(p.conflict).len() > 0 ==> told(e, "conflict"@, as_object(links(p.conflict))))
            &&& (links(p.provide).len() > 0 ==> told(e, "provide"@, as_object(links(p.provide))))
            &&& (links(p.replace).len() > 0 ==> told(e, "replace"@, as_object(links(p.replace))))
            &&& (links(p.require_dev).len() > 0 ==> told(e, "require-dev"@, as_object(links(p.require_dev))))
            &&& (links(p.suggest).len() > 0 ==> told(e, "suggest"@, as_object(links(p.suggest))))
            &&& (p.bin@.len() > 0 ==> told(e, "bin"@, text_list(views(p.bin@))))
            &&& (told(e, "type"@, JsonView::Text(p.package_type@)))
            &&& (p.extra is Some ==> told(e, "extra"@, p.extra->0@))
            &&& (!p.autoload.nothing() ==> told(e, "autoload"@, JsonView::Object(autoload_entries(p.autoload))))
            &&& (!p.autoload_dev.nothing() ==> told(e, "autoload-dev"@, JsonView::Object(autoload_entries(p.autoload_dev))))
            &&& (p.notification_url is Some ==> told(e, "notification-url"@, JsonView::Text(p.notification_url->0@)))
            &&& (p.license@.len() > 0 ==> told(e, "license"@, text_list(views(p.license@))))
            &&& (p.authors@.len() > 0 ==> told(e, "authors"@, JsonView::Array(author_list(p.authors@))))
            &&& (p.description is Some && p.description->0@.len() > 0 ==> told(e, "description"@, JsonView::Text(p.description->0@)))
            &&& (p.homepage is Some && p.homepage->0@.len() > 0 ==> told(e, "homepage"@, JsonView::Text(p.homepage->0@)))
            &&& (p.keywords@.len() > 0 ==> told(e, "keywords"@, text_list(views(p.keywords@))))
            &&& (links(p.support).len() > 0 ==> told(e, "support"@, as_object(links(p.support))))
            &&& (p.funding@.len() > 0 ==> told(e, "funding"@, JsonView::Array(way_list(p.funding@))))
            &&& (p.time is Some ==> told(e, "time"@, JsonView::Text(p.time->0@)))
            &&& (!(p.abandoned@ is Null) && p.abandoned@ != JsonView::Bool(false) ==> told(e, "abandoned"@, p.abandoned@))
            &&& (p.archive is Some ==> told(e, "archive"@, JsonView::Object(archive_entries(p.archive->0))))
            &&& (p.installation_source is Some ==> told(e, "installation-source"@, JsonView::Text(p.installation_source->0@)))
            &&& (p.default_branch is Some ==> told(e, "default-branch"@, JsonView::Bool(p.default_branch->0)))
            &&& (p.transport_options is Some ==> told(e, "transport-options"@, p.transport_options->0@))
        }),
{
    let a = named_entries(Seq::empty(), p);
    let b = loaded_entries(a, p);
    lemma_named_entries(Seq::empty(), p);
    lemma_loaded_entries(a, p);
    lemma_described_entries(b, p);
}

/// Whatever the lock file knows of the project is written.
pub proof fn law_everything_known_of_the_project_is_written(l: ComposerLock)
    ensures
        ({
            let e = lock_entries(l);
            &&& (l.readme@.len() > 0 ==> told(e, "_readme"@, text_list(views(l.readme@))))
            &&& (told(e, "content-hash"@, JsonView::Text(l.content_hash@)))
            &&& (told(e, "packages"@, JsonView::Array(package_list(l.packages@))))
            &&& (told(e, "packages-dev"@, JsonView::Array(package_list(l.packages_dev@))))
            &&& (told(e, "aliases"@, JsonView::Array(alias_list(l.aliases@))))
            &&& (told(e, "minimum-stability"@, JsonView::Text(l.minimum_stability@)))
            &&& (told(e, "stability-flags"@, flags_document(flags_view(l.stability_flags@))))
            &&& (told(e, "prefer-stable"@, JsonView::Bool(l.prefer_stable)))
            &&& (told(e, "prefer-lowest"@, JsonView::Bool(l.prefer_lowest)))
            &&& (links(l.platform).len() > 0 ==> told(e, "platform"@, as_object(links(l.platform))))
            &&& (links(l.platform_dev).len() > 0 ==> told(e, "platform-dev"@, as_object(links(l.platform_dev))))
            &&& (links(l.platform_overrides).len() > 0 ==> told(e, "platform-overrides"@, as_object(links(l.platform_overrides))))
            &&& (l.plugin_api_version@.len() > 0 ==> told(e, "plugin-api-version"@, JsonView::Text(l.plugin_api_version@)))
        }),
{
    lemma_as_object(links(l.platform));
    lemma_as_object(links(l.platform_dev));
    lemma_as_object(links(l.platform_overrides));
    let e0 = Seq::<(Seq<char>, JsonView)>::empty();
    let e1 = with_section(e0, "_readme"@, texts_document(views(l.readme@)));
    let e2 = with_section(e1, "content-hash"@, some_text(l.content_hash@));
    let e3 = with_section(e2, "packages"@, Some(JsonView::Array(package_list(l.packages@))));
    let e4 = with_section(e3, "packages-dev"@, Some(JsonView::Array(package_list(l.packages_dev@))));
    let e5 = with_section(e4, "aliases"@, Some(JsonView::Array(alias_list(l.aliases@))));
    let e6 = with_section(e5, "minimum-stability"@, some_text(l.minimum_stability@));
    let e7 = with_section(e6, "stability-flags"@, Some(flags_document(flags_view(l.stability_flags@))));
    let e8 = with_section(e7, "prefer-stable"@, flag_document(Some(l.prefer_stable)));
    let e9 = with_section(e8, "prefer-lowest"@, flag_document(Some(l.prefer_lowest)));
    let e10 = with_section(e9, "platform"@, links_document(links(l.platform)));
    let e11 = with_section(e10, "platform-dev"@, links_document(links(l.platform_dev)));
    let e12 = with_section(e11, "platform-overrides"@, links_document(links(l.platform_overrides)));
    let e13 = with_section(e12, "plugin-api-version"@, text_document(nonempty(l.plugin_api_version@)));
    lemma_section(e0, "_readme"@, texts_document(views(l.readme@)));
    lemma_section(e1, "content-hash"@, some_text(l.content_hash@));
    lemma_section(e2, "packages"@, Some(JsonView::Array(package_list(l.packages@))));
    lemma_section(e3, "packages-dev"@, Some(JsonView::Array(package_list(l.packages_dev@))));
    lemma_section(e4, "aliases"@, Some(JsonView::Array(alias_list(l.aliases@))));
    lemma_section(e5, "minimum-stability"@, some_text(l.minimum_stability@));
    lemma_section(e6, "stability-flags"@, Some(flags_document(flags_view(l.stability_flags@))));
    lemma_section(e7, "prefer-stable"@, flag_document(Some(l.prefer_stable)));
    lemma_section(e8, "prefer-lowest"@, flag_document(Some(l.prefer_lowest)));
    lemma_section(e9, "platform"@, links_document(links(l.platform)));
    lemma_section(e10, "platform-dev"@, links_document(links(l.platform_dev)));
    lemma_section(e11, "platform-overrides"@, links_document(links(l.platform_overrides)));
    lemma_section(e12, "plugin-api-version"@, text_document(nonempty(l.plugin_api_version@)));
    assert(lock_entries(l) == e13);
}

/// Where the sources are is written whole.
pub proof fn law_source_is_written(s: LockSource)
    ensures
        ({
            let e = source_entries(s);
            &&& (told(e, "type"@, JsonView::Text(s.source_type@)))
            &&& (told(e, "url"@, JsonView::Text(s.url@)))
            &&& (told(e, "reference"@, JsonView::Text(s.reference@)))
        }),
{
    let e0 = Seq::<(Seq<char>, JsonView)>::empty();
    let e1 = with_section(e0, "type"@, some_text(s.source_type@));
    let e2 = with_section(e1, "url"@, some_text(s.url@));
    let e3 = with_section(e2, "reference"@, some_text(s.reference@));
    lemma_section(e0, "type"@, some_text(s.source_type@));
    lemma_section(e1, "url"@, some_text(s.url@));
    lemma_section(e2, "reference"@, some_text(s.reference@));
    assert(source_entries(s) == e3);
}

/// Where the archive is is written whole.
pub proof fn law_archive_is_written(d: LockDist)
    ensures
        ({
            let e = dist_entries(d);
            &&& (told(e, "type"@, JsonView::Text(d.dist_type@)))
            &&& (told(e, "url"@, JsonView::Text(d.url@)))
            &&& (d.reference is Some ==> told(e, "reference"@, JsonView::Text(d.reference->0@)))
            &&& (d.shasum is Some ==> told(e, "shasum"@, JsonView::Text(d.shasum->0@)))
        }),
{
    let e0 = Seq::<(Seq<char>, JsonView)>::empty();
    let e1 = with_section(e0, "type"@, some_text(d.dist_type@));
    let e2 = with_section(e1, "url"@, some_text(d.url@));
    let e3 = with_section(e2, "reference"@, text_document(opt(d.reference)));
    let e4 = with_section(e3, "shasum"@, some_text(shasum_of(d)));
    lemma_section(e0, "type"@, some_text(d.dist_type@));
    lemma_section(e1, "url"@, some_text(d.url@));
    lemma_section(e2, "reference"@, text_document(opt(d.reference)));
    lemma_section(e3, "shasum"@, some_text(shasum_of(d)));
    assert(dist_entries(d) == e4);
}

/// Every way in which classes are found is written.
pub proof fn law_loading_is_written(a: LockAutoload)
    ensures
        ({
            let e = autoload_entries(a);
            &&& (named_values(a.psr4).len() > 0 ==> told(e, "psr-4"@, JsonView::Object(named_values(a.psr4))))
            &&& (named_values(a.psr0).len() > 0 ==> told(e, "psr-0"@, JsonView::Object(named_values(a.psr0))))
            &&& (a.classmap@.len() > 0 ==> told(e, "classmap"@, text_list(views(a.classmap@))))
            &&& (a.files@.len() > 0 ==> told(e, "files"@, text_list(views(a.files@))))
            &&& (a.exclude_from_classmap@.len() > 0 ==> told(e, "exclude-from-classmap"@, text_list(views(a.exclude_from_classmap@))))
        }),
{
    let e0 = Seq::<(Seq<char>, JsonView)>::empty();
    let e1 = with_section(e0, "psr-4"@, values_document(named_values(a.psr4)));
    let e2 = with_section(e1, "psr-0"@, values_document(named_values(a.psr0)));
    let e3 = with_section(e2, "classmap"@, texts_document(views(a.classmap@)));
    let e4 = with_section(e3, "files"@, texts_document(views(a.files@)));
    let e5 = with_section(e4, "exclude-from-classmap"@, texts_document(views(a.exclude_from_classmap@)));
    lemma_section(e0, "psr-4"@, values_document(named_values(a.psr4)));
    lemma_section(e1, "psr-0"@, values_document(named_values(a.psr0)));
    lemma_section(e2, "classmap"@, texts_document(views(a.classmap@)));
    lemma_section(e3, "files"@, texts_document(views(a.files@)));
    lemma_section(e4, "exclude-from-classmap"@, texts_document(views(a.exclude_from_classmap@)));
    assert(autoload_entries(a) == e5);
}

/// What is known of an author is written.
pub proof fn law_author_is_written(a: LockAuthor)
    ensures
        ({
            let e = author_entries(a);
            &&& (told(e, "name"@, JsonView::Text(a.name@)))
            &&& (a.email is Some ==> told(e, "email"@, JsonView::Text(a.email->0@)))
            &&& (a.homepage is Some ==> told(e, "homepage"@, JsonView::Text(a.homepage->0@)))
            &&& (a.role is Some ==> told(e, "role"@, JsonView::Text(a.role->0@)))
        }),
{
    let e0 = Seq::<(Seq<char>, JsonView)>::empty();
    let e1 = with_section(e0, "name"@, some_text(a.name@));
    let e2 = with_section(e1, "email"@, text_document(opt(a.email)));
    let e3 = with_section(e2, "homepage"@, text_document(opt(a.homepage)));
    let e4 = with_section(e3, "role"@, text_document(opt(a.role)));
    lemma_section(e0, "name"@, some_text(a.name@));
    lemma_section(e1, "email"@, text_document(opt(a.email)));
    lemma_section(e2, "homepage"@, text_document(opt(a.homepage)));
    lemma_section(e3, "role"@, text_document(opt(a.role)));
    assert(author_entries(a) == e4);
}

/// How a package can be funded is written.
pub proof fn law_funding_is_written(f: LockFunding)
    ensures
        ({
            let e = way_entries(f);
            &&& (told(e, "url"@, JsonView::Text(f.url@)))
            &&& (told(e, "type"@, JsonView::Text(f.funding_type@)))
        }),
{
    let e0 = Seq::<(Seq<char>, JsonView)>::empty();
    let e1 = with_section(e0, "url"@, some_text(f.url@));
    let e2 = with_section(e1, "type"@, some_text(f.funding_type@));
    lemma_section(e0, "url"@, some_text(f.url@));
    lemma_section(e1, "type"@, some_text(f.funding_type@));
    assert(way_entries(f) == e2);
}

/// A version under another name is written whole.
pub proof fn law_alias_is_written(a: LockAlias)
    ensures
        ({
            let e = alias_entries(a);
            &&& (told(e, "package"@, JsonView::Text(a.package@)))
            &&& (told(e, "version"@, JsonView::Text(a.version@)))
            &&& (told(e, "alias"@, JsonView::Text(a.alias@)))
            &&& (told(e, "alias_normalized"@, JsonView::Text(a.alias_normalized@)))
        }),
{
    let e0 = Seq::<(Seq<char>, JsonView)>::empty();
    let e1 = with_section(e0, "package"@, some_text(a.package@));
    let e2 = with_section(e1, "version"@, some_text(a.version@));
    let e3 = with_section(e2, "alias"@, some_text(a.alias@));
    let e4 = with_section(e3, "alias_normalized"@, some_text(a.alias_normalized@));
    lemma_section(e0, "package"@, some_text(a.package@));
    lemma_section(e1, "version"@, some_text(a.version@));
    lemma_section(e2, "alias"@, some_text(a.alias@));
    lemma_section(e3, "alias_normalized"@, some_text(a.alias_normalized@));
    assert(alias_entries(a) == e4);
}

/// Every package, every version under another name, every author, every way to fund and every
/// stability has its place in its list, in the same order, and nothing else has.
pub proof fn law_lists_are_written_whole(
    packages: Seq<LockedPackage>,
    aliases: Seq<LockAlias>,
    authors: Seq<LockAuthor>,
    ways: Seq<LockFunding>,
    flags: Seq<(Seq<char>, u8)>,
)
    ensures
        package_list(packages).len() == packages.len(),
        alias_list(aliases).len() == aliases.len(),
        author_list(authors).len() == authors.len(),
        way_list(ways).len() == ways.len(),
        forall|i: int|
            0 <= i < packages.len() ==> #[trigger] package_list(packages)[i] == JsonView::Object(
                package_entries(packages[i]),
            ),
        forall|i: int|
            0 <= i < aliases.len() ==> #[trigger] alias_list(aliases)[i] == JsonView::Object(
                alias_entries(aliases[i]),
            ),
        forall|i: int|
            0 <= i < authors.len() ==> #[trigger] author_list(authors)[i] == JsonView::Object(
                author_entries(authors[i]),
            ),
        forall|i: int|
            0 <= i < ways.len() ==> #[trigger] way_list(ways)[i] == JsonView::Object(
                way_entries(ways[i]),
            ),
        flags_document(flags) matches JsonView::Object(o) && o.len() == flags.len() && forall|i: int|
            0 <= i < flags.len() ==> #[trigger] o[i] == (
                flags[i].0,
                JsonView::Number(NumberView::Unsigned(flags[i].1 as u64)),
            ),
{
}

} // verus!
