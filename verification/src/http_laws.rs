//! What holds of requests: which replies count, and when one is made again.
use vstd::prelude::*;

use crate::cache::{fresh_digest, in_u64, CacheMetadata};
use crate::http::{backoff_nanos, next_of, Duration, Next, Reply};

verus! {

/// A reply of success is taken, an error of the server or too many requests let the request be made
/// again as long as attempts are left, and every other status is final.
pub proof fn law_every_reply_has_its_answer(
    max_retries: u32,
    delay: Duration,
    attempt: u32,
    status: u16,
)
    ensures
        200 <= status < 300 ==> next_of(max_retries, delay, attempt, Reply::Status(status))
            == Next::Accept,
        (500 <= status < 600 || status == 429) && attempt < max_retries ==> next_of(
            max_retries,
            delay,
            attempt,
            Reply::Status(status),
        ) == Next::Retry(Duration { nanos: backoff_nanos(delay, attempt) as u128 }),
        (500 <= status < 600 || status == 429) && attempt >= max_retries ==> next_of(
            max_retries,
            delay,
            attempt,
            Reply::Status(status),
        ) == Next::GiveUp,
        !(200 <= status < 300) && !(500 <= status < 600) && status != 429 ==> next_of(
            max_retries,
            delay,
            attempt,
            Reply::Status(status),
        ) == Next::Reject(status),
{
}

/// A request that no reply comes to is made again as long as attempts are left.
pub proof fn law_lost_requests_are_made_again(
    max_retries: u32,
    delay: Duration,
    attempt: u32,
    reply: Reply,
)
    requires
        !(reply is Status),
    ensures
        attempt < max_retries ==> next_of(max_retries, delay, attempt, reply) == Next::Retry(
            Duration { nanos: backoff_nanos(delay, attempt) as u128 },
        ),
        attempt >= max_retries ==> next_of(max_retries, delay, attempt, reply) == Next::GiveUp,
{
}

/// A digest counts exactly where its entry is young enough and its file has the length and the
/// time that the digest was made for.
pub proof fn law_digest_counts_while_fresh(
    m: CacheMetadata,
    length: u64,
    modified: Option<u128>,
    age: Option<Duration>,
    max_age: Duration,
)
    ensures
        m.content_sha256 is Some ==> (fresh_digest(m, length, modified, age, max_age)
            == m.content_sha256 <==> age is Some && age->0.nanos < max_age.nanos
            && m.content_length == Some(length) && m.content_modified_ns == in_u64(modified)),
        m.content_sha256 is None ==> fresh_digest(m, length, modified, age, max_age) is None,
{
}

} // verus!
