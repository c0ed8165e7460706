//! What repositories told, kept for later, with what tells whether it is still good.
use vstd::prelude::*;
use vstd::string::*;

use crate::http::Duration;
use crate::lock::{copy_option, opt};
use crate::paths::{join_path, joined_path};
use crate::text::{
    after, char_is_alphanumeric, has_prefix, is_alphanumeric, lower, lower_char, strip_prefix,
};

verus! {

/// What goes with an entry of the cache.
#[derive(Debug, Clone)]
pub struct CacheMetadata {
    /// When the server last changed it.
    pub last_modified: Option<String>,
    /// What the server calls this version of it.
    pub etag: Option<String>,
    pub content_sha256: Option<[u8; 32]>,
    pub content_length: Option<u64>,
    /// When the file was last changed, in nanoseconds since 1970.
    pub content_modified_ns: Option<u64>,
}

impl Default for CacheMetadata {
    fn default() -> (r: CacheMetadata)
        ensures
            r.last_modified is None,
            r.etag is None,
            r.content_sha256 is None,
            r.content_length is None,
            r.content_modified_ns is None,
    {
        CacheMetadata {
            last_modified: None,
            etag: None,
            content_sha256: None,
            content_length: None,
            content_modified_ns: None,
        }
    }
}

/// The SHA-256 digest of bytes.
pub uninterp spec fn sha256(bytes: Seq<u8>) -> Seq<u8>;

/// `sha2::Sha256::digest`: the digest of the bytes.
#[verifier::external_body]
pub(crate) fn sha256_digest(bytes: &[u8]) -> (r: [u8; 32])
    ensures
        r@ == sha256(bytes@),
{
    <sha2::Sha256 as sha2::Digest>::digest(bytes).into()
}

/// The cache of one repository.
#[derive(Debug, Clone)]
pub struct RepoCache {
    path: String,
    enabled: bool,
    read_only: bool,
}

/// The text without a prefix, however often it stands there.
pub open spec fn stripped(s: Seq<char>, p: Seq<char>) -> Seq<char>
    decreases s.len(),
{
    if p.len() > 0 && has_prefix(s, p) {
        stripped(after(s, p.len() as int), p)
    } else {
        s
    }
}

/// A character of a directory name: letters in lower case and digits stay, all others
/// become dashes.
pub open spec fn safe_char(c: char) -> char {
    if is_alphanumeric(c) {
        lower_char(c)
    } else {
        '-'
    }
}

/// The directory name for an address, without its scheme.
pub open spec fn sanitized(url: Seq<char>) -> Seq<char> {
    stripped(stripped(url, "https://"@), "http://"@).map_values(|c: char| safe_char(c))
}

fn strip_all<'a>(s: &'a str, p: &str) -> (r: &'a str)
    requires
        p@.len() > 0,
    ensures
        r@ == stripped(s@, p@),
{
    let mut rest: &'a str = s;
    loop
        invariant
            p@.len() > 0,
            stripped(s@, p@) == stripped(rest@, p@),
        decreases rest@.len(),
    {
        match strip_prefix(rest, p) {
            Some(t) => {
                rest = t;
            },
            None => {
                return rest;
            },
        }
    }
}

impl RepoCache {
    /// Where the entries are kept.
    pub closed spec fn directory(&self) -> Seq<char> {
        self.path@
    }

    /// The cache is used.
    pub closed spec fn on(&self) -> bool {
        self.enabled
    }

    /// Nothing is written to the cache.
    pub closed spec fn kept_as_is(&self) -> bool {
        self.read_only
    }

    /// The directory name for an address.
    pub fn sanitize_url(url: &str) -> (r: String)
        ensures
            r@ == sanitized(url@),
    {
        proof {
            reveal_strlit("https://");
            reveal_strlit("http://");
        }
        let bare = strip_all(strip_all(url, "https://"), "http://");
        let v = crate::text::chars_of(bare);
        let ghost want = bare@.map_values(|c: char| safe_char(c));
        let mut out = String::new();
        let mut i: usize = 0;
        assert(out@ =~= want.take(0));
        while i < v.len()
            invariant
                i <= v.len(),
                v@ == bare@,
                want == bare@.map_values(|c: char| safe_char(c)),
                out@ == want.take(i as int),
            decreases v.len() - i,
        {
            if char_is_alphanumeric(v[i]) {
                out.push(lower(v[i]));
            } else {
                out.push('-');
            }
            i += 1;
            assert(out@ =~= want.take(i as int));
        }
        assert(out@ =~= want);
        out
    }

    /// The cache of the repository at an address, below a directory.
    pub fn new(cache_dir: &str, repo_url: &str) -> (r: RepoCache)
        ensures
            r.directory() == joined_path(joined_path(cache_dir@, "repo"@), sanitized(repo_url@)),
            r.on(),
            !r.kept_as_is(),
    {
        let base = join_path(cache_dir, "repo");
        let name = RepoCache::sanitize_url(repo_url);
        RepoCache {
            path: join_path(base.as_str(), name.as_str()),
            enabled: true,
            read_only: false,
        }
    }

    /// Where the entries are kept.
    pub fn path(&self) -> (r: &str)
        ensures
            r@ == self.directory(),
    {
        self.path.as_str()
    }

    /// Sets whether nothing is written to the cache.
    pub fn set_read_only(&mut self, read_only: bool)
        ensures
            final(self).kept_as_is() == read_only,
            final(self).directory() == old(self).directory(),
            final(self).on() == old(self).on(),
    {
        self.read_only = read_only;
    }

    /// Whether the cache is used.
    pub fn is_enabled(&self) -> (r: bool)
        ensures
            r == self.on(),
    {
        self.enabled
    }

    /// Whether nothing is written to the cache.
    pub fn is_read_only(&self) -> (r: bool)
        ensures
            r == self.kept_as_is(),
    {
        self.read_only
    }

    /// The entry that holds what goes with another.
    pub fn meta_key(key: &str) -> (r: String)
        ensures
            r@ == key@ + ".meta"@,
    {
        key.to_owned().concat(".meta")
    }
}

/// What is kept beside content that was written, given the length of its file and
/// when it was last changed.
pub fn metadata_for_content(
    metadata: &CacheMetadata,
    content: &[u8],
    length: u64,
    modified: Option<u128>,
) -> (r: CacheMetadata)
    ensures
        opt(r.last_modified) == opt(metadata.last_modified),
        opt(r.etag) == opt(metadata.etag),
        r.content_sha256 matches Some(h) && h@ == sha256(content@),
        r.content_length == Some(length),
        r.content_modified_ns == in_u64(modified),
{
    CacheMetadata {
        last_modified: copy_option(&metadata.last_modified),
        etag: copy_option(&metadata.etag),
        content_sha256: Some(sha256_digest(content)),
        content_length: Some(length),
        content_modified_ns: modified_ns(modified),
    }
}

/// The number, where a `u64` can hold it.
pub open spec fn in_u64(n: Option<u128>) -> Option<u64> {
    match n {
        Some(k) => if k <= u64::MAX {
            Some(k as u64)
        } else {
            None
        },
        None => None,
    }
}

/// When a file was last changed, in nanoseconds since 1970, where a `u64` can hold it.
/// `None` stands for a time before that.
pub fn modified_ns(since_epoch: Option<u128>) -> (r: Option<u64>)
    ensures
        r == in_u64(since_epoch),
{
    match since_epoch {
        Some(k) => if k <= 18446744073709551615 {
            Some(k as u64)
        } else {
            None
        },
        None => None,
    }
}

/// The digest of an entry, where it is fresh and its file is the one that the digest
/// was made of.
pub open spec fn fresh_digest(
    m: CacheMetadata,
    length: u64,
    modified: Option<u128>,
    age: Option<Duration>,
    max_age: Duration,
) -> Option<[u8; 32]> {
    if (age matches Some(a) && a.nanos < max_age.nanos) && m.content_length == Some(length)
        && m.content_modified_ns == in_u64(modified) {
        m.content_sha256
    } else {
        None
    }
}

/// The digest of an entry, where it is fresh and its file is the one that the digest
/// was made of. `age` is how long ago the file was changed, `None` where that lies in
/// the future.
pub fn fresh_content_sha256(
    metadata: &CacheMetadata,
    length: u64,
    modified: Option<u128>,
    age: Option<Duration>,
    max_age: Duration,
) -> (r: Option<[u8; 32]>)
    ensures
        r == fresh_digest(*metadata, length, modified, age, max_age),
{
    let fresh = match age {
        Some(a) => a.nanos < max_age.nanos,
        None => false,
    };
    if !fresh {
        return None;
    }
    let same_length = match metadata.content_length {
        Some(n) => n == length,
        None => false,
    };
    let same_time = match (metadata.content_modified_ns, modified_ns(modified)) {
        (Some(a), Some(b)) => a == b,
        (None, None) => true,
        _ => false,
    };
    if same_length && same_time {
        metadata.content_sha256
    } else {
        None
    }
}

/// What goes with content that was written gives its digest as long as it is fresh
/// and the file is the same, and nothing once the file has another length.
pub proof fn law_digest_goes_with_its_file(
    m: CacheMetadata,
    content: Seq<u8>,
    length: u64,
    modified: Option<u128>,
    age: Duration,
    max_age: Duration,
    other: u64,
)
    requires
        m.content_sha256 matches Some(h) && h@ == sha256(content),
        m.content_length == Some(length),
        m.content_modified_ns == in_u64(modified),
    ensures
        age.nanos < max_age.nanos ==> (fresh_digest(m, length, modified, Some(age), max_age)
            matches Some(h) && h@ == sha256(content)),
        age.nanos >= max_age.nanos ==> fresh_digest(m, length, modified, Some(age), max_age)
            is None,
        other != length ==> fresh_digest(m, other, modified, Some(age), max_age) is None,
{
}

/// A directory name holds lower-case letters, digits and dashes only.
pub proof fn law_directory_names_are_safe(url: Seq<char>)
    ensures
        forall|i: int|
            0 <= i < sanitized(url).len() ==> {
                let c = #[trigger] sanitized(url)[i];
                c == '-' || ('a' <= c && c <= 'z') || ('0' <= c && c <= '9')
            },
{
}

} // verus!
