//! What holds of the keys of settings: which part of a key names what.
use vstd::prelude::*;

use crate::settings::keys::{auth_kind, credentials_of, policy_name, repository_of};
use crate::text::{after, before, find_from, lemma_find_from, pieces};

verus! {

proof fn lemma_behind(word: Seq<char>, name: Seq<char>)
    ensures
        crate::settings::keys::name_behind(word + "."@ + name, word) == Some(name),
{
    reveal_strlit(".");
    let key = word + "."@ + name;
    assert(key.len() > word.len());
    assert(key.subrange(0, word.len() as int) =~= word);
    let rest = after(key, word.len() as int);
    assert(rest =~= "."@ + name);
    assert(rest.subrange(0, 1) =~= "."@);
    assert(after(rest, 1) =~= name);
}

/// What stands behind the word for repositories is the name of one; the word alone is for all.
pub proof fn law_keys_name_repositories(name: Seq<char>)
    ensures
        repository_of("repositories"@) == Some(Seq::<char>::empty()),
        repository_of("repositories"@ + "."@ + name) == Some(name),
{
    lemma_behind("repositories"@, name);
}

/// A kind of credentials with a host behind a dot names both, whatever the host holds.
pub proof fn law_keys_name_credentials(kind: Seq<char>, host: Seq<char>)
    requires
        auth_kind(kind),
        !kind.contains('.'),
    ensures
        credentials_of(kind + "."@ + host) == Some((kind, host)),
{
    reveal_strlit(".");
    let key = kind + "."@ + host;
    let n = kind.len() as int;
    lemma_find_from(key, '.', 0);
    assert(key[n] == '.');
    assert(forall|k: int| 0 <= k < n ==> #[trigger] key[k] == kind[k] && kind.contains(kind[k]));
    assert(find_from(key, '.', 0) == n);
    assert(before(key, n) =~= kind);
    assert(after(key, n + 1) =~= host);
}

/// A key names credentials only where a kind of them stands before its first dot.
pub proof fn law_only_kinds_name_credentials(key: Seq<char>)
    ensures
        credentials_of(key) matches Some((kind, host)) ==> auth_kind(kind) && key == kind + seq!['.']
            + host && !kind.contains('.'),
{
    crate::text_laws::law_halves_make_the_text(key, '.');
}

/// The name of a policy list is the part of the key behind the first dot.
pub proof fn law_keys_name_policy_lists(key: Seq<char>)
    ensures
        pieces(key, '.').len() >= 2 ==> policy_name(key) == pieces(key, '.')[1],
        pieces(key, '.').len() < 2 ==> policy_name(key).len() == 0,
{
}

} // verus!
