//! What holds of the search for PHP, and of what is kept of what it said.
use vstd::prelude::*;

use crate::holding::lemma_one_more;
use crate::installer::loading_laws::lemma_sorted_holds;
use crate::links::Pairs;
use crate::paths::{absolute, components, joined_path, same_names};
use crate::platform::{
    bearing, by_name_and_value, exchanged, first_php, places, platform_cache, still_good, FileState,
    ProbeIdentity,
};
use crate::sort::{by_name, pairs};
use crate::text::has_prefix;

verus! {

/// The PHP of the command line comes before that of the project's variable, and that before the one
/// of the system's variable.
pub proof fn law_command_line_decides_on_php(
    cli: Option<Seq<char>>,
    own: Option<Seq<char>>,
    system: Option<Seq<char>>,
)
    ensures
        cli matches Some(c) ==> first_php(cli, own, system) == c,
        cli is None ==> (own matches Some(o) ==> first_php(cli, own, system) == o),
        cli is None && own is None ==> (system matches Some(s) ==> first_php(cli, own, system) == s),
        cli is None && own is None && system is None ==> first_php(cli, own, system) == "php"@,
{
}

/// What PHP said is kept in the cache directory of the user, unless that is switched off.
pub proof fn law_platform_is_kept_for_the_user(
    off: Option<Seq<char>>,
    xdg: Option<Seq<char>>,
    home: Option<Seq<char>>,
)
    ensures
        off is Some && off->0 != "0"@ ==> platform_cache(off, xdg, home) is None,
        (off is None || off->0 == "0"@) && xdg is Some && xdg->0.len() > 0 ==> platform_cache(
            off,
            xdg,
            home,
        ) == Some(joined_path(xdg->0, "sonata/platform"@)),
        (off is None || off->0 == "0"@) && !(xdg is Some && xdg->0.len() > 0) && home is Some
            && home->0.len() > 0 ==> platform_cache(off, xdg, home) == Some(
            joined_path(joined_path(home->0, ".cache"@), "sonata/platform"@),
        ),
{
}

/// The variable bears on what PHP says.
pub open spec fn matters(name: Seq<char>) -> bool {
    name == "PATH"@ || name == "LD_LIBRARY_PATH"@ || name == "LD_PRELOAD"@ || has_prefix(
        name,
        "PHP"@,
    ) || has_prefix(name, "COMPOSER_RS_PHP"@) || has_prefix(name, "DYLD_"@)
}

proof fn lemma_bearing(s: Pairs, n: int, e: (Seq<char>, Seq<char>))
    requires
        0 <= n <= s.len(),
    ensures
        bearing(s, n).contains(e) <==> exists|i: int|
            0 <= i < n && #[trigger] s[i] == e && matters(e.0),
    decreases n,
{
    if n > 0 {
        lemma_bearing(s, n - 1, e);
        lemma_one_more(bearing(s, n - 1), s[n - 1], e);
    }
}

proof fn lemma_exchanged(s: Pairs, e: (Seq<char>, Seq<char>))
    ensures
        exchanged(s).contains((e.1, e.0)) <==> s.contains(e),
{
    let t = exchanged(s);
    if s.contains(e) {
        let i = choose|i: int| 0 <= i < s.len() && s[i] == e;
        assert(t[i] == (e.1, e.0));
    }
    if t.contains((e.1, e.0)) {
        let i = choose|i: int| 0 <= i < t.len() && t[i] == (e.1, e.0);
        assert(s[i] == e);
    }
}

/// What is asked of the environment is every variable that bears on what PHP says, with its value,
/// and no other.
pub proof fn law_every_variable_that_matters_is_kept(s: Pairs, e: (Seq<char>, Seq<char>))
    ensures
        by_name_and_value(bearing(s, s.len() as int)).contains(e) <==> s.contains(e) && matters(e.0),
{
    let b = bearing(s, s.len() as int);
    lemma_bearing(s, s.len() as int, e);
    lemma_exchanged(b, e);
    lemma_sorted_holds(exchanged(b), (e.1, e.0));
    lemma_exchanged(by_name(exchanged(b)), (e.1, e.0));
    lemma_sorted_holds(exchanged(by_name(exchanged(b))), e);
    if s.contains(e) {
        let i = choose|i: int| 0 <= i < s.len() && s[i] == e;
        assert(s[i] == e);
    }
}

/// A program is looked for in every directory of the path, in their order; one that is named with
/// a directory is looked for there alone.
pub proof fn law_program_is_looked_for_everywhere(
    binary: Seq<char>,
    directories: Seq<Seq<char>>,
    k: int,
)
    ensures
        absolute(binary) || components(binary).len() > 1 ==> places(binary, directories) == seq![
            binary,
        ],
        !absolute(binary) && components(binary).len() <= 1 ==> places(binary, directories).len()
            == directories.len(),
        !absolute(binary) && components(binary).len() <= 1 && 0 <= k < directories.len() ==> places(
            binary,
            directories,
        )[k] == joined_path(directories[k], binary),
{
}

/// What was kept counts only as long as PHP, the directory, the environment and every file that was
/// looked at are the same.
pub proof fn law_kept_answers_are_current(
    version: u8,
    kept: ProbeIdentity,
    now: ProbeIdentity,
    watched: Seq<FileState>,
    watched_now: Seq<FileState>,
    i: int,
)
    requires
        still_good(version, kept, now, watched, watched_now),
    ensures
        version == 1,
        same_names(kept.php.requested@, now.php.requested@),
        same_names(kept.php.resolved@, now.php.resolved@),
        kept.php.metadata == now.php.metadata,
        same_names(kept.current_dir@, now.current_dir@),
        pairs(kept.environment@) == pairs(now.environment@),
        watched.len() == watched_now.len(),
        0 <= i < watched.len() ==> watched[i].metadata == watched_now[i].metadata && same_names(
            watched_now[i].requested@,
            watched[i].requested@,
        ) && same_names(watched_now[i].resolved@, watched[i].resolved@),
{
    if 0 <= i < watched.len() {
        assert(crate::platform::same_state(watched_now[i], watched[i]));
    }
}

} // verus!
