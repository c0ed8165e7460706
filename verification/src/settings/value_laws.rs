//! What holds of the words that settings are given: what they stand for, and which are turned down.
use vstd::prelude::*;

use crate::holding::lemma_plus;
use crate::json::{key_at, lemma_key_at, value_of, Entries, JsonView};
use crate::settings::values::{
    choice, choice_allowed, completed, credentials, described_repository, first_bad_header, header,
    merge_outcome, text_list, truth,
};
use crate::text::{halves, trimmed};

verus! {

/// Four words stand for a switch, two for each position, and no other word does.
pub proof fn law_switch_has_four_words(word: Seq<char>)
    ensures
        truth(word) == Ok::<bool, Seq<char>>(true) <==> word == "true"@ || word == "1"@,
        truth(word) == Ok::<bool, Seq<char>>(false) <==> word == "false"@ || word == "0"@,
        truth(word) is Err <==> word != "true"@ && word != "1"@ && word != "false"@ && word != "0"@,
{
    reveal_strlit("true");
    reveal_strlit("1");
    reveal_strlit("false");
    reveal_strlit("0");
    assert("true"@.len() == 4 && "1"@.len() == 1 && "false"@.len() == 5 && "0"@.len() == 1);
    assert("1"@[0] != "0"@[0]);
}

/// A choice is taken exactly where its word is allowed for the key: as a switch where it is one,
/// else as the word itself.
pub proof fn law_allowed_words_are_taken(key: Seq<char>, word: Seq<char>)
    ensures
        choice(key, word) is Ok <==> choice_allowed(key, word),
        choice_allowed(key, word) && (word == "true"@ || word == "1"@) ==> choice(key, word) == Ok::<
            JsonView,
            Seq<char>,
        >(JsonView::Bool(true)),
        choice_allowed(key, word) && (word == "false"@ || word == "0"@) ==> choice(key, word)
            == Ok::<JsonView, Seq<char>>(JsonView::Bool(false)),
        choice_allowed(key, word) && truth(word) is Err ==> choice(key, word) == Ok::<
            JsonView,
            Seq<char>,
        >(JsonView::Text(word)),
{
    law_switch_has_four_words(word);
}

proof fn lemma_kinds()
    ensures
        "bitbucket-oauth"@ != "http-basic"@,
        "forgejo-token"@ != "http-basic"@ && "forgejo-token"@ != "bitbucket-oauth"@,
        "custom-headers"@ != "http-basic"@ && "custom-headers"@ != "bitbucket-oauth"@,
        "custom-headers"@ != "forgejo-token"@ && "custom-headers"@ != "gitlab-token"@,
        "bearer"@ != "http-basic"@ && "bearer"@ != "bitbucket-oauth"@ && "bearer"@
            != "forgejo-token"@,
        "bearer"@ != "gitlab-token"@ && "bearer"@ != "custom-headers"@,
        "github-oauth"@ != "http-basic"@ && "github-oauth"@ != "bitbucket-oauth"@
            && "github-oauth"@ != "forgejo-token"@,
        "github-oauth"@ != "gitlab-token"@ && "github-oauth"@ != "custom-headers"@,
{
    reveal_strlit("bitbucket-oauth");
    reveal_strlit("http-basic");
    reveal_strlit("forgejo-token");
    reveal_strlit("custom-headers");
    reveal_strlit("gitlab-token");
    reveal_strlit("bearer");
    reveal_strlit("github-oauth");
    assert("bitbucket-oauth"@.len() == 15 && "http-basic"@.len() == 10);
    assert("forgejo-token"@.len() == 13 && "custom-headers"@.len() == 14);
    assert("gitlab-token"@.len() == 12 && "bearer"@.len() == 6 && "github-oauth"@.len() == 12);
    assert("github-oauth"@[3] != "gitlab-token"@[3]);
}

/// Credentials of two words are stored under their two names, a token as it is, and headers as a
/// list.
pub proof fn law_credentials_are_stored_whole(
    a: Seq<char>,
    b: Seq<char>,
    lines: Seq<Seq<char>>,
)
    ensures
        credentials("http-basic"@, seq![a, b]) == Ok::<JsonView, Seq<char>>(
            JsonView::Object(
                seq![("username"@, JsonView::Text(a)), ("password"@, JsonView::Text(b))],
            ),
        ),
        credentials("bitbucket-oauth"@, seq![a, b]) == Ok::<JsonView, Seq<char>>(
            JsonView::Object(
                seq![("consumer-key"@, JsonView::Text(a)), ("consumer-secret"@, JsonView::Text(b))],
            ),
        ),
        credentials("bearer"@, seq![a]) == Ok::<JsonView, Seq<char>>(JsonView::Text(a)),
        credentials("github-oauth"@, seq![a]) == Ok::<JsonView, Seq<char>>(JsonView::Text(a)),
        credentials("http-basic"@, seq![a]) is Err,
        credentials("bearer"@, seq![a, b]) is Err,
        lines.len() > 0 && (forall|i: int| 0 <= i < lines.len() ==> header(#[trigger] lines[i]))
            ==> credentials("custom-headers"@, lines) == Ok::<JsonView, Seq<char>>(
            text_list(lines),
        ),
{
    lemma_kinds();
    assert(seq![a, b].len() == 2 && seq![a, b][0] == a && seq![a, b][1] == b);
    assert(seq![a].len() == 1 && seq![a][0] == a);
    law_bad_headers_are_found(lines);
}

/// A header has a name, a colon and a value; the first line that has not is the one that is
/// complained of.
pub proof fn law_bad_headers_are_found(lines: Seq<Seq<char>>)
    ensures
        first_bad_header(lines) is None <==> forall|i: int|
            0 <= i < lines.len() ==> header(#[trigger] lines[i]),
        first_bad_header(lines) matches Some(l) ==> lines.contains(l) && !header(l),
    decreases lines.len(),
{
    if lines.len() > 0 && header(lines[0]) {
        let rest = lines.drop_first();
        law_bad_headers_are_found(rest);
        if first_bad_header(rest) is None {
            assert forall|i: int| 0 <= i < lines.len() implies header(#[trigger] lines[i]) by {
                if i > 0 {
                    assert(lines[i] == rest[i - 1]);
                }
            }
        } else {
            let l = first_bad_header(rest)->0;
            let k = choose|k: int| 0 <= k < rest.len() && rest[k] == l;
            assert(lines[k + 1] == l);
        }
        if forall|i: int| 0 <= i < lines.len() ==> header(#[trigger] lines[i]) {
            assert forall|i: int| 0 <= i < rest.len() implies header(#[trigger] rest[i]) by {
                assert(rest[i] == lines[i + 1]);
            }
        }
    } else if lines.len() > 0 {
        assert(lines[0] == lines[0]);
        assert(lines.contains(lines[0]));
    }
}

/// A header is a name and a value with a colon between them, neither of them empty.
pub proof fn law_headers_have_a_name_and_a_value(line: Seq<char>, name: Seq<char>, value: Seq<char>)
    requires
        halves(line, ':') == Some((name, value)),
    ensures
        header(line) <==> name.len() > 0 && trimmed(value).len() > 0,
{
}

/// Two words describe a repository by its type and its address, and the word for off switches it
/// off.
pub proof fn law_repository_has_type_and_address(
    kind: Seq<char>,
    url: Seq<char>,
    read: Option<JsonView>,
)
    ensures
        described_repository(seq![kind, url], read) == Ok::<JsonView, Seq<char>>(
            JsonView::Object(seq![("type"@, JsonView::Text(kind)), ("url"@, JsonView::Text(url))]),
        ),
        described_repository(seq!["false"@], read) == Ok::<JsonView, Seq<char>>(
            JsonView::Bool(false),
        ),
        described_repository(seq!["true"@], read) is Err,
{
    reveal_strlit("true");
    reveal_strlit("false");
    reveal_strlit("0");
    assert("true"@.len() == 4 && "false"@.len() == 5 && "0"@.len() == 1);
    let two = seq![kind, url];
    assert(two.len() == 2 && two[0] == kind && two[1] == url);
    let off = seq!["false"@];
    assert(off.len() == 1 && off[0] == "false"@);
    let on = seq!["true"@];
    assert(on.len() == 1 && on[0] == "true"@);
}

proof fn lemma_pushed_key(o: Entries, e: (Seq<char>, JsonView), key: Seq<char>)
    requires
        value_of(o, e.0) is None,
    ensures
        value_of(o.push(e), key) == if key == e.0 {
            Some(e.1)
        } else {
            value_of(o, key)
        },
{
    lemma_key_at(o, e.0);
    assert(o.push(e) == crate::json::with_entry(o, e.0, e.1));
    crate::json::lemma_with_entry(o, e.0, e.1, key);
}

proof fn lemma_completed(o: Entries, a: Entries, n: int, key: Seq<char>)
    requires
        0 <= n <= a.len(),
    ensures
        value_of(o, key) is Some ==> value_of(completed(o, a, n), key) == value_of(o, key),
        value_of(o, key) is None && (exists|k: int| 0 <= k < n && (#[trigger] a[k]).0 == key)
            ==> value_of(completed(o, a, n), key) is Some,
        value_of(o, key) is None && !(exists|k: int| 0 <= k < n && (#[trigger] a[k]).0 == key)
            ==> value_of(completed(o, a, n), key) is None,
    decreases n,
{
    if n > 0 {
        lemma_completed(o, a, n - 1, key);
        let t = completed(o, a, n - 1);
        lemma_key_at(t, a[n - 1].0);
        if key_at(t, a[n - 1].0) >= t.len() {
            lemma_pushed_key(t, a[n - 1], key);
        }
    }
}

/// Lists are merged one behind the other, objects key by key with the new value where both have one,
/// and a list does not go with an object.
pub proof fn law_merging_keeps_both(
    a: Seq<JsonView>,
    b: Seq<JsonView>,
    o: Entries,
    p: Entries,
    key: Seq<char>,
    name: Seq<char>,
    x: JsonView,
)
    ensures
        merge_outcome(JsonView::Array(a), JsonView::Array(b), name) matches Ok(JsonView::Array(l))
            && (l.contains(x) <==> a.contains(x) || b.contains(x)),
        merge_outcome(JsonView::Object(o), JsonView::Object(p), name) matches Ok(
            JsonView::Object(m),
        ) && (value_of(p, key) is Some ==> value_of(m, key) == value_of(p, key)) && (value_of(p, key)
            is None ==> (value_of(m, key) is Some <==> exists|k: int|
            0 <= k < o.len() && (#[trigger] o[k]).0 == key)),
        merge_outcome(JsonView::Array(a), JsonView::Object(p), name) is Err,
        merge_outcome(JsonView::Object(o), JsonView::Array(b), name) is Err,
{
    lemma_plus(a, b, x);
    lemma_completed(p, o, o.len() as int, key);
}

} // verus!
