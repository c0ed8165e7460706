//! What holds of settings that are written or taken out: each change does what was asked, and no
//! more.
use vstd::prelude::*;

use crate::json::{at_path, JsonView, NumberView};
use crate::json_laws::{
    diverge, law_read_after_remove, law_read_after_write, law_remove_keeps_the_rest,
    law_write_keeps_the_rest,
};
use crate::settings::keys::{
    bool_key, config_key, credentials_of, integer_key, multi_key, nullable_key, repository_of,
    string_key,
};
use crate::settings::values::{list_fault, text_list};
use crate::settings::write::{
    below_config, changed, config_change, path_below, unset, ChangeView,
};
use crate::text::{pieces, without_prefix};

verus! {

/// A value that is set is there, what stands elsewhere stays, and so do the credentials.
pub proof fn law_assigned_value_is_there(
    path: Seq<Seq<char>>,
    v: JsonView,
    document: JsonView,
    auth: JsonView,
    append: bool,
    other: Seq<Seq<char>>,
)
    ensures
        at_path(changed(ChangeView::Assign(path, v), document, auth, append).0, path) == Some(v),
        diverge(path, other) ==> at_path(
            changed(ChangeView::Assign(path, v), document, auth, append).0,
            other,
        ) == at_path(document, other),
        changed(ChangeView::Assign(path, v), document, auth, append).1 == auth,
{
    law_read_after_write(document, path, v);
    if diverge(path, other) {
        law_write_keeps_the_rest(document, path, v, other);
    }
}

/// Credentials that are set stand among the credentials, and no longer in the manifest.
pub proof fn law_credentials_leave_the_manifest(
    kind: Seq<char>,
    host: Seq<char>,
    v: JsonView,
    document: JsonView,
    auth: JsonView,
    append: bool,
    other: Seq<Seq<char>>,
)
    requires
        document.wf(),
    ensures
        ({
            let r = changed(ChangeView::Credentials(kind, host, v), document, auth, append);
            &&& at_path(r.1, seq![kind, host]) == Some(v)
            &&& at_path(r.0, seq!["config"@, kind, host]) is None
            &&& diverge(seq![kind, host], other) ==> at_path(r.1, other) == at_path(auth, other)
        }),
{
    law_read_after_write(auth, seq![kind, host], v);
    law_read_after_remove(document, seq!["config"@, kind, host], true);
    if diverge(seq![kind, host], other) {
        law_write_keeps_the_rest(auth, seq![kind, host], v, other);
    }
}

/// Credentials that are unset are gone from the credentials and from the manifest.
pub proof fn law_unset_credentials_are_gone(
    key: Seq<char>,
    kind: Seq<char>,
    host: Seq<char>,
    document: JsonView,
    auth: JsonView,
)
    requires
        document.wf(),
        auth.wf(),
        repository_of(key) is None,
        credentials_of(key) == Some((kind, host)),
    ensures
        at_path(unset(key, document, auth).0, seq!["config"@, kind, host]) is None,
        at_path(unset(key, document, auth).1, seq![kind, host]) is None,
{
    law_read_after_remove(document, seq!["config"@, kind, host], true);
    law_read_after_remove(auth, seq![kind, host], false);
}

/// A setting of the manifest that is unset is gone, what stands elsewhere stays, and so do the
/// credentials.
pub proof fn law_unset_setting_of_the_manifest_is_gone(
    key: Seq<char>,
    document: JsonView,
    auth: JsonView,
    other: Seq<Seq<char>>,
)
    requires
        document.wf(),
        repository_of(key) is None,
        credentials_of(key) is None,
        without_prefix(key, "policy."@) is None,
        !config_key(key),
        !below_config(key),
    ensures
        at_path(unset(key, document, auth).0, pieces(key, '.')) is None,
        diverge(pieces(key, '.'), other) ==> at_path(unset(key, document, auth).0, other) == at_path(
            document,
            other,
        ),
        unset(key, document, auth).1 == auth,
{
    crate::text::lemma_pieces_nonempty(key, '.');
    law_read_after_remove(document, pieces(key, '.'), false);
    if diverge(pieces(key, '.'), other) {
        law_remove_keeps_the_rest(document, pieces(key, '.'), false, other);
    }
}

/// A rule of the policy that is unset is gone.
pub proof fn law_unset_rule_is_gone(
    key: Seq<char>,
    rest: Seq<char>,
    policy: JsonView,
    document: JsonView,
    auth: JsonView,
)
    requires
        policy.wf(),
        repository_of(key) is None,
        credentials_of(key) is None,
        without_prefix(key, "policy."@) == Some(rest),
        at_path(document, seq!["config"@, "policy"@]) == Some(policy),
    ensures
        at_path(unset(key, document, auth).0, seq!["config"@, "policy"@]) matches Some(p) && at_path(
            p,
            pieces(rest, '.'),
        ) is None,
        unset(key, document, auth).1 == auth,
{
    let p = crate::json::without_path(policy, pieces(rest, '.'), true);
    crate::text::lemma_pieces_nonempty(rest, '.');
    law_read_after_remove(policy, pieces(rest, '.'), true);
    law_read_after_write(document, seq!["config"@, "policy"@], p);
}

/// What is set under `config` goes there: a word as a text, a number as a number and words as a
/// list; a setting that can be empty becomes `null` for that word.
pub proof fn law_settings_go_under_config(
    key: Seq<char>,
    word: Seq<char>,
    words: Seq<Seq<char>>,
    n: i64,
)
    ensures
        string_key(key) && !bool_key(key) && !integer_key(key) && !(nullable_key(key) && word
            == "null"@) ==> config_change(key, seq![word], None) == Ok::<ChangeView, Seq<char>>(
            ChangeView::Assign(seq!["config"@, key], JsonView::Text(word)),
        ),
        string_key(key) && !bool_key(key) && !integer_key(key) && nullable_key(key) && word
            == "null"@ ==> config_change(key, seq![word], None) == Ok::<ChangeView, Seq<char>>(
            ChangeView::Assign(seq!["config"@, key], JsonView::Null),
        ),
        integer_key(key) && !bool_key(key) && n >= 0 ==> config_change(key, seq![word], Some(n))
            == Ok::<ChangeView, Seq<char>>(
            ChangeView::Assign(
                seq!["config"@, key],
                JsonView::Number(NumberView::Unsigned(n as u64)),
            ),
        ),
        integer_key(key) && !bool_key(key) ==> config_change(key, seq![word], None) is Err,
        multi_key(key) && !bool_key(key) && !integer_key(key) && !string_key(key) && list_fault(
            key,
            words,
        ) is None ==> config_change(key, words, None) == Ok::<ChangeView, Seq<char>>(
            ChangeView::Assign(path_below("config"@, key), text_list(words)),
        ),
{
    let one = seq![word];
    assert(one.len() == 1 && one[0] == word);
}

} // verus!
