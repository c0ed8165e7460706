//! What holds of archives and sources: from where they are got, and where their files go.
use vstd::prelude::*;

use crate::downloader::{
    addresses_of, archive_step_of, behind_shared, checksum_of, is_source_step, placed,
    shared_directory, zip_placed, ArchiveState, ArchiveStep, ArchiveType, DownloadConfig,
    GitCredential, GitDownloader, GitOffer, Origin, PlacementView, SourceStep,
};
use crate::package::{Dist, Package, Source};
use crate::paths::joined_path;
use crate::text::{
    find_from, has_infix, has_prefix, has_suffix, joined, lemma_find_from, lowercase, views,
};

verus! {

/// A package that follows a branch is got from its source, and so is one whose source is
/// preferred; every other is got from its archive where it has one. A local directory comes before
/// both.
pub proof fn law_source_or_archive_is_got(config: DownloadConfig, p: Package)
    ensures
        p.dist is Some && p.dist->0.dist_type@ == "path"@ ==> config.origin_of(p) == Origin::Path,
        !(p.dist is Some && p.dist->0.dist_type@ == "path"@) && p.source is Some && (
        p.follows_branch() || config.prefer_source) ==> config.origin_of(p) == Origin::Source,
        p.dist is Some && p.dist->0.dist_type@ != "path"@ && !p.follows_branch()
            && !config.prefer_source ==> config.origin_of(p) == Origin::Dist,
        p.dist is Some && p.dist->0.dist_type@ != "path"@ && p.source is None
            ==> config.origin_of(p) == Origin::Dist,
        p.dist is None && p.source is Some ==> config.origin_of(p) == Origin::Source,
{
}

/// An archive is held to its checksum wherever it has one.
pub proof fn law_known_checksum_is_expected(d: Dist)
    ensures
        d.sha256 is Some && d.sha256->0@.len() > 0 ==> checksum_of(d) == Some(d.sha256->0@),
        !(d.sha256 is Some && d.sha256->0@.len() > 0) && d.shasum is Some && d.shasum->0@.len() > 0
            ==> checksum_of(d) == Some(d.shasum->0@),
        checksum_of(d) is None <==> !(d.sha256 is Some && d.sha256->0@.len() > 0) && !(d.shasum is Some
            && d.shasum->0@.len() > 0),
{
}

/// An archive that is kept and matches is not downloaded again, one that is not there is, one that
/// is kept and does not match goes, and where a download fails the next address is tried.
pub proof fn law_archives_are_got_when_needed(known: Option<bool>)
    ensures
        known != Some(false) ==> archive_step_of(ArchiveState::Kept(known)) == (
        ArchiveStep::Unpack { from_cache: true }),
        known != Some(false) ==> archive_step_of(ArchiveState::Downloaded(known)) == (
        ArchiveStep::Unpack { from_cache: false }),
        archive_step_of(ArchiveState::Absent) is Download,
        archive_step_of(ArchiveState::Failed) is NextAddress,
        archive_step_of(ArchiveState::Kept(Some(false))) is Discard,
        archive_step_of(ArchiveState::Downloaded(Some(false))) is Mismatch,
{
}

/// Every address is tried: the first one and then each mirror, in their order.
pub proof fn law_every_address_is_tried(url: Seq<char>, mirrors: Seq<Seq<char>>, k: int)
    ensures
        addresses_of(url, mirrors).len() == mirrors.len() + 1,
        addresses_of(url, mirrors)[0] == url,
        0 <= k < mirrors.len() ==> addresses_of(url, mirrors)[k + 1] == mirrors[k],
{
}

/// Sources of git are cloned from each address in turn, and given up only once all have failed;
/// sources of another kind are not cloned.
pub proof fn law_sources_are_cloned_from_every_address(s: Source, failed: int, step: SourceStep)
    requires
        is_source_step(s, failed, step),
        0 <= failed,
    ensures
        s.source_type@ == "git"@ && failed == 0 ==> (step matches SourceStep::CloneFrom(url) && url@
            == s.url@),
        s.source_type@ == "git"@ && 1 <= failed <= s.mirrors@.len() ==> (
        step matches SourceStep::CloneFrom(url) && url@ == s.mirrors@[failed - 1]@),
        s.source_type@ == "git"@ && failed > s.mirrors@.len() ==> step is OutOfAddresses,
        s.source_type@ != "git"@ ==> step is Unsupported,
{
    let all = views(s.mirrors@);
    assert(all.len() == s.mirrors@.len());
    if 1 <= failed <= s.mirrors@.len() {
        assert(addresses_of(s.url@, all)[failed] == all[failed - 1]);
        assert(all[failed - 1] == s.mirrors@[failed - 1]@);
    }
}

/// A directory is cut off only where every entry of the archive stands in it, and it is a whole
/// name.
pub proof fn law_shared_directory_holds_every_entry(names: Seq<Seq<char>>, i: int)
    requires
        0 <= i < names.len(),
    ensures
        shared_directory(names) matches Some(dir) ==> has_prefix(names[i], dir) && dir.len() > 0
            && dir[dir.len() - 1] == '/' && (forall|k: int|
            0 <= k < dir.len() - 1 ==> #[trigger] dir[k] != '/'),
{
    lemma_find_from(names[0], '/', 0);
    if let Some(dir) = shared_directory(names) {
        let at = find_from(names[0], '/', 0);
        assert(dir.len() == at + 1);
        assert(dir[at] == names[0][at]);
        assert forall|k: int| 0 <= k < dir.len() - 1 implies #[trigger] dir[k] != '/' by {
            assert(dir[k] == names[0][k]);
        }
        assert(has_prefix(names[i], dir));
    }
}

/// Every entry of an archive that is left once its first names are dropped gets its place under
/// the rest of its path, unless two dots stand in it.
pub proof fn law_every_entry_is_placed(names: Seq<Seq<char>>, strip: int, dest: Seq<char>)
    requires
        0 <= strip,
    ensures
        strip < names.len() && joined(names.skip(strip), "/"@).len() > 0 && !has_infix(
            joined(names.skip(strip), "/"@),
            ".."@,
        ) ==> placed(names, strip, dest) == PlacementView::Place(
            joined_path(dest, joined(names.skip(strip), "/"@)),
        ),
        strip >= names.len() ==> placed(names, strip, dest) is Skip,
{
}

/// Every entry of a zip archive gets its place: under its path without the directory that all
/// share, where they share one. A path that leaves the archive is refused.
pub proof fn law_every_zip_entry_is_placed(
    path: Seq<char>,
    first: Seq<char>,
    rest: Seq<Seq<char>>,
    dest: Seq<char>,
)
    requires
        rest.len() > 0,
    ensures
        zip_placed(path, Some(seq![first] + rest), Some(first + "/"@), dest)
            == PlacementView::Place(joined_path(dest, joined(rest, "/"@))),
        zip_placed(path, Some(rest), None, dest) == PlacementView::Place(
            joined_path(dest, joined(rest, "/"@)),
        ),
        forall|shared: Option<Seq<char>>|
            #[trigger] zip_placed(path, None, shared, dest) == PlacementView::Refuse(path),
{
    let all = seq![first] + rest;
    assert(all[0] == first);
    assert(all.skip(1) =~= rest);
    assert(behind_shared(all, Some(first + "/"@)) == rest);
}

/// The kind of an archive is told by the end of its name, whatever the case of the letters.
pub proof fn law_names_tell_the_kind(path: Seq<char>)
    ensures
        has_suffix(lowercase(path), ".zip"@) ==> ArchiveType::by_name(path) == Some(
            ArchiveType::Zip,
        ),
        ArchiveType::by_name(path) == Some(ArchiveType::Zip) ==> has_suffix(
            lowercase(path),
            ".zip"@,
        ),
        ArchiveType::by_name(path) == Some(ArchiveType::TarGz) ==> has_suffix(
            lowercase(path),
            ".tar.gz"@,
        ) || has_suffix(lowercase(path), ".tgz"@),
        ArchiveType::by_name(path) == Some(ArchiveType::TarBz2) ==> has_suffix(
            lowercase(path),
            ".tar.bz2"@,
        ) || has_suffix(lowercase(path), ".tbz2"@),
        ArchiveType::by_name(path) == Some(ArchiveType::TarXz) ==> has_suffix(
            lowercase(path),
            ".tar.xz"@,
        ) || has_suffix(lowercase(path), ".txz"@),
        ArchiveType::by_name(path) == Some(ArchiveType::Tar) ==> has_suffix(
            lowercase(path),
            ".tar"@,
        ),
        ArchiveType::by_name(path) is None ==> !has_suffix(lowercase(path), ".tar.gz"@)
            && !has_suffix(lowercase(path), ".tgz"@) && !has_suffix(lowercase(path), ".tar.bz2"@)
            && !has_suffix(lowercase(path), ".tbz2"@) && !has_suffix(lowercase(path), ".tar.xz"@)
            && !has_suffix(lowercase(path), ".txz"@) && !has_suffix(lowercase(path), ".tar"@)
            && !has_suffix(lowercase(path), ".zip"@),
{
}

/// Git is given the key that was set, else the agent unless that is switched off, else a key in the
/// usual place; a user and a password where only these are asked for. Nothing is given that was not
/// asked for.
pub proof fn law_git_is_given_what_it_asks_for(d: GitDownloader, offer: GitOffer)
    ensures
        offer.ssh && d.ssh_key is Some ==> d.credential_of(offer) == GitCredential::Key,
        offer.ssh && d.ssh_key is None && d.use_ssh_agent ==> d.credential_of(offer)
            == GitCredential::Agent,
        offer.ssh && d.ssh_key is None && !d.use_ssh_agent && offer.has_ed25519 ==> d.credential_of(
            offer,
        ) == GitCredential::Ed25519,
        offer.ssh && d.ssh_key is None && !d.use_ssh_agent && !offer.has_ed25519 && offer.has_rsa
            ==> d.credential_of(offer) == GitCredential::Rsa,
        !offer.ssh && offer.password && offer.has_user_and_password ==> d.credential_of(offer)
            == GitCredential::UserAndPassword,
        !offer.ssh ==> d.credential_of(offer) != GitCredential::Key && d.credential_of(offer)
            != GitCredential::Agent && d.credential_of(offer) != GitCredential::Ed25519
            && d.credential_of(offer) != GitCredential::Rsa,
        !offer.password ==> d.credential_of(offer) != GitCredential::UserAndPassword,
        !offer.default ==> d.credential_of(offer) != GitCredential::Default,
        d.ssh_key is None ==> d.credential_of(offer) != GitCredential::Key,
        !d.use_ssh_agent ==> d.credential_of(offer) != GitCredential::Agent,
{
}

/// The type of a reply tells the kind of an archive by the word in it.
pub proof fn law_replies_tell_the_kind(content_type: Seq<char>)
    ensures
        has_infix(lowercase(content_type), "gzip"@) ==> ArchiveType::by_content(content_type)
            == Some(ArchiveType::TarGz),
        ArchiveType::by_content(content_type) == Some(ArchiveType::Zip) ==> has_infix(
            lowercase(content_type),
            "zip"@,
        ) && !has_infix(lowercase(content_type), "gzip"@),
        ArchiveType::by_content(content_type) == Some(ArchiveType::TarBz2) ==> has_infix(
            lowercase(content_type),
            "bzip2"@,
        ) || has_infix(lowercase(content_type), "x-bzip2"@),
        ArchiveType::by_content(content_type) == Some(ArchiveType::TarXz) ==> has_infix(
            lowercase(content_type),
            "x-xz"@,
        ),
        ArchiveType::by_content(content_type) == Some(ArchiveType::Tar) ==> has_infix(
            lowercase(content_type),
            "x-tar"@,
        ),
        ArchiveType::by_content(content_type) is None ==> !has_infix(
            lowercase(content_type),
            "zip"@,
        ) && !has_infix(lowercase(content_type), "gzip"@) && !has_infix(
            lowercase(content_type),
            "bzip2"@,
        ) && !has_infix(lowercase(content_type), "x-xz"@) && !has_infix(
            lowercase(content_type),
            "x-tar"@,
        ),
{
}

} // verus!
