//! The steps of an update, of an install and of a dump of the loader: which step
//! follows which, and with which exit code a run ends.
use vstd::prelude::*;

verus! {

/// What an update was asked to do.
#[derive(Debug, Clone)]
pub struct UpdateOptions {
    pub optimize_autoloader: bool,
    pub classmap_authoritative: bool,
    pub apcu_autoloader: bool,
    /// Write the lock file and nothing else.
    pub update_lock_only: bool,
    /// The packages to update, where not all of them.
    pub update_packages: Option<Vec<String>>,
    pub with_dependencies: bool,
    pub with_all_dependencies: bool,
    pub no_autoloader: bool,
    pub no_scripts: bool,
}

/// What an install was asked to do.
#[derive(Debug, Clone)]
pub struct InstallOptions {
    pub optimize_autoloader: bool,
    pub classmap_authoritative: bool,
    pub apcu_autoloader: bool,
    pub ignore_platform_reqs: bool,
    pub no_autoloader: bool,
    pub no_scripts: bool,
}

impl Default for UpdateOptions {
    fn default() -> (r: UpdateOptions)
        ensures
            r == (UpdateOptions {
                optimize_autoloader: false,
                classmap_authoritative: false,
                apcu_autoloader: false,
                update_lock_only: false,
                update_packages: None,
                with_dependencies: false,
                with_all_dependencies: false,
                no_autoloader: false,
                no_scripts: false,
            }),
    {
        UpdateOptions {
            optimize_autoloader: false,
            classmap_authoritative: false,
            apcu_autoloader: false,
            update_lock_only: false,
            update_packages: None,
            with_dependencies: false,
            with_all_dependencies: false,
            no_autoloader: false,
            no_scripts: false,
        }
    }
}

impl Default for InstallOptions {
    fn default() -> (r: InstallOptions)
        ensures
            r == (InstallOptions {
                optimize_autoloader: false,
                classmap_authoritative: false,
                apcu_autoloader: false,
                ignore_platform_reqs: false,
                no_autoloader: false,
                no_scripts: false,
            }),
    {
        InstallOptions {
            optimize_autoloader: false,
            classmap_authoritative: false,
            apcu_autoloader: false,
            ignore_platform_reqs: false,
            no_autoloader: false,
            no_scripts: false,
        }
    }
}

/// What decides on the steps of a run.
#[derive(Debug, Clone, Copy, PartialEq, Eq, Structural)]
pub struct Switches {
    pub dry_run: bool,
    pub no_scripts: bool,
    pub no_autoloader: bool,
    /// Stop once the lock file is written.
    pub lock_only: bool,
}

/// A step of a run.
#[derive(Debug, Clone, Copy, PartialEq, Eq, Structural)]
pub enum Step {
    /// Run the scripts for the start.
    PreScripts,
    /// Resolve the requirements.
    Resolve,
    /// Check that the enabled plugins among the packages are supported: in an update among all
    /// that were selected, in an install among those of the lock file that are to be installed.
    CheckPlugins,
    /// Build the new lock file and compare it with the one there is.
    BuildLock,
    /// Write the lock file.
    WriteLock,
    /// Say whether the lock file changed.
    ReportLock { changed: bool },
    /// Install, update and remove packages.
    Install,
    /// Tell PHP code what is installed.
    WriteMetadata,
    /// Run the scripts before the loader is dumped.
    PreDumpScripts,
    /// Dump the loader, and tell PHP code what is installed.
    Dump,
    /// Run the scripts after the loader was dumped.
    PostDumpScripts,
    /// Say how many packages changed.
    Report,
    /// Name the abandoned packages.
    NameAbandoned,
    /// Run the scripts for the end.
    PostScripts,
    /// The run is over.
    Finish { exit_code: i32 },
    /// The run is over with an error: a step could not be done, or the plugins were refused.
    Fail,
}

/// How a step ended.
#[derive(Debug, Clone, Copy, PartialEq, Eq, Structural)]
pub enum Outcome {
    /// Scripts ended with an exit code.
    Scripts(i32),
    /// The lock file was built; whether it differs from the one there is.
    Built { lock_changed: bool },
    /// The requirements cannot be met.
    Unresolvable,
    /// An enabled plugin is not supported.
    Refused,
    /// The step could not be done.
    Failed,
    /// The step is done.
    Done,
}

/// What ends a run that scripts, the resolution, the plugins or a step that could not be done
/// stop.
pub open spec fn stopped(outcome: Outcome) -> Option<Step> {
    match outcome {
        Outcome::Scripts(code) => if code != 0 {
            Some(Step::Finish { exit_code: code })
        } else {
            None
        },
        Outcome::Unresolvable => Some(Step::Finish { exit_code: 1 }),
        Outcome::Refused => Some(Step::Fail),
        Outcome::Failed => Some(Step::Fail),
        _ => None,
    }
}

/// What follows once the packages are in place.
pub open spec fn after_install(s: Switches) -> Step {
    if s.dry_run {
        Step::Report
    } else if s.no_autoloader {
        Step::WriteMetadata
    } else if s.no_scripts {
        Step::Dump
    } else {
        Step::PreDumpScripts
    }
}

/// What follows once the changes were reported.
pub open spec fn after_report(s: Switches) -> Step {
    if s.dry_run {
        Step::Finish { exit_code: 0 }
    } else {
        Step::NameAbandoned
    }
}

/// What follows once the new lock file was built.
pub open spec fn after_build(s: Switches, changed: bool) -> Step {
    if changed && !s.dry_run {
        Step::WriteLock
    } else if s.lock_only {
        Step::ReportLock { changed }
    } else {
        Step::Install
    }
}

/// The run is over.
pub open spec fn is_end(last: Option<Step>) -> bool {
    last matches Some(step) && (step is Finish || step is Fail)
}

/// The step that follows on another in an update.
pub open spec fn update_step(s: Switches, last: Option<Step>, outcome: Outcome) -> Step {
    if is_end(last) {
        last->0
    } else if let Some(end) = stopped(outcome) {
        end
    } else {
        match last {
            None => if s.no_scripts {
                Step::Resolve
            } else {
                Step::PreScripts
            },
            Some(Step::PreScripts) => Step::Resolve,
            Some(Step::Resolve) => Step::CheckPlugins,
            Some(Step::CheckPlugins) => Step::BuildLock,
            Some(Step::BuildLock) => after_build(
                s,
                outcome == Outcome::Built { lock_changed: true },
            ),
            Some(Step::WriteLock) => if s.lock_only {
                Step::ReportLock { changed: true }
            } else {
                Step::Install
            },
            Some(Step::ReportLock { .. }) => Step::Finish { exit_code: 0 },
            Some(Step::Install) => after_install(s),
            Some(Step::WriteMetadata) => Step::Report,
            Some(Step::PreDumpScripts) => Step::Dump,
            Some(Step::Dump) => if s.no_scripts {
                Step::Report
            } else {
                Step::PostDumpScripts
            },
            Some(Step::PostDumpScripts) => Step::Report,
            Some(Step::Report) => after_report(s),
            Some(Step::NameAbandoned) => if s.no_scripts {
                Step::Finish { exit_code: 0 }
            } else {
                Step::PostScripts
            },
            Some(Step::PostScripts) => Step::Finish { exit_code: 0 },
            Some(Step::Finish { exit_code }) => Step::Finish { exit_code },
            Some(Step::Fail) => Step::Fail,
        }
    }
}

/// The step that follows on another in an install: nothing is resolved anew, and the
/// lock file stays.
pub open spec fn install_step(s: Switches, last: Option<Step>, outcome: Outcome) -> Step {
    if is_end(last) {
        last->0
    } else if let Some(end) = stopped(outcome) {
        end
    } else {
        match last {
            None => if s.no_scripts {
                Step::CheckPlugins
            } else {
                Step::PreScripts
            },
            Some(Step::PreScripts) => Step::CheckPlugins,
            Some(Step::CheckPlugins) => Step::Install,
            other => update_step(s, other, outcome),
        }
    }
}

fn stop(outcome: Outcome) -> (r: Option<Step>)
    ensures
        r == stopped(outcome),
{
    match outcome {
        Outcome::Scripts(code) => if code != 0 {
            Some(Step::Finish { exit_code: code })
        } else {
            None
        },
        Outcome::Unresolvable => Some(Step::Finish { exit_code: 1 }),
        Outcome::Refused => Some(Step::Fail),
        Outcome::Failed => Some(Step::Fail),
        _ => None,
    }
}

fn end_of(last: Option<Step>) -> (r: Option<Step>)
    ensures
        r.is_some() == is_end(last),
        r matches Some(step) ==> step == last->0,
{
    match last {
        Some(Step::Finish { exit_code }) => Some(Step::Finish { exit_code }),
        Some(Step::Fail) => Some(Step::Fail),
        _ => None,
    }
}

/// The step that follows on `last` in an update, which ended in `outcome`. The first
/// step follows on none.
pub fn next_update_step(s: Switches, last: Option<Step>, outcome: Outcome) -> (r: Step)
    ensures
        r == update_step(s, last, outcome),
{
    if let Some(end) = end_of(last) {
        return end;
    }
    if let Some(end) = stop(outcome) {
        return end;
    }
    match last {
        None => if s.no_scripts {
            Step::Resolve
        } else {
            Step::PreScripts
        },
        Some(Step::PreScripts) => Step::Resolve,
        Some(Step::Resolve) => Step::CheckPlugins,
        Some(Step::CheckPlugins) => Step::BuildLock,
        Some(Step::BuildLock) => {
            let changed = match outcome {
                Outcome::Built { lock_changed } => lock_changed,
                _ => false,
            };
            if changed && !s.dry_run {
                Step::WriteLock
            } else if s.lock_only {
                Step::ReportLock { changed }
            } else {
                Step::Install
            }
        },
        Some(Step::WriteLock) => if s.lock_only {
            Step::ReportLock { changed: true }
        } else {
            Step::Install
        },
        Some(Step::ReportLock { .. }) => Step::Finish { exit_code: 0 },
        Some(Step::Install) => if s.dry_run {
            Step::Report
        } else if s.no_autoloader {
            Step::WriteMetadata
        } else if s.no_scripts {
            Step::Dump
        } else {
            Step::PreDumpScripts
        },
        Some(Step::WriteMetadata) => Step::Report,
        Some(Step::PreDumpScripts) => Step::Dump,
        Some(Step::Dump) => if s.no_scripts {
            Step::Report
        } else {
            Step::PostDumpScripts
        },
        Some(Step::PostDumpScripts) => Step::Report,
        Some(Step::Report) => if s.dry_run {
            Step::Finish { exit_code: 0 }
        } else {
            Step::NameAbandoned
        },
        Some(Step::NameAbandoned) => if s.no_scripts {
            Step::Finish { exit_code: 0 }
        } else {
            Step::PostScripts
        },
        Some(Step::PostScripts) => Step::Finish { exit_code: 0 },
        Some(Step::Finish { exit_code }) => Step::Finish { exit_code },
        Some(Step::Fail) => Step::Fail,
    }
}

/// The step that follows on `last` in an install, which ended in `outcome`.
pub fn next_install_step(s: Switches, last: Option<Step>, outcome: Outcome) -> (r: Step)
    ensures
        r == install_step(s, last, outcome),
{
    if let Some(end) = end_of(last) {
        return end;
    }
    if let Some(end) = stop(outcome) {
        return end;
    }
    match last {
        None => if s.no_scripts {
            Step::CheckPlugins
        } else {
            Step::PreScripts
        },
        Some(Step::PreScripts) => Step::CheckPlugins,
        Some(Step::CheckPlugins) => Step::Install,
        other => next_update_step(s, other, outcome),
    }
}

// ---------------------------------------------------------------------------
// What holds of every run
// ---------------------------------------------------------------------------
/// The step runs scripts.
pub open spec fn runs_scripts(step: Step) -> bool {
    step is PreScripts || step is PreDumpScripts || step is PostDumpScripts || step is PostScripts
}

/// The step writes to the project.
pub open spec fn writes(step: Step) -> bool {
    step is WriteLock || step is WriteMetadata || step is Dump
}

/// A step that a run can reach: the first one, or one that follows on such a step.
pub open spec fn reachable(s: Switches, install: bool, trace: Seq<(Step, Outcome)>) -> bool
    decreases trace.len(),
{
    if trace.len() == 0 {
        true
    } else {
        reachable(s, install, trace.drop_last()) && trace.last().0 == last_step(
            s,
            install,
            trace.drop_last(),
        )
    }
}

/// The step that follows on a run so far.
pub open spec fn last_step(s: Switches, install: bool, trace: Seq<(Step, Outcome)>) -> Step {
    let (last, outcome) = if trace.len() == 0 {
        (None, Outcome::Done)
    } else {
        (Some(trace.last().0), trace.last().1)
    };
    if install {
        install_step(s, last, outcome)
    } else {
        update_step(s, last, outcome)
    }
}

/// A dry run writes nothing, names no abandoned packages, and runs no scripts but
/// those for the start.
pub proof fn law_dry_run_writes_nothing(s: Switches, install: bool, trace: Seq<(Step, Outcome)>)
    requires
        s.dry_run,
        reachable(s, install, trace),
    ensures
        forall|i: int|
            0 <= i < trace.len() ==> !writes((#[trigger] trace[i]).0) && !(trace[i].0
                is NameAbandoned) && (runs_scripts(trace[i].0) ==> trace[i].0 is PreScripts),
    decreases trace.len(),
{
    if trace.len() > 0 {
        let head = trace.drop_last();
        law_dry_run_writes_nothing(s, install, head);
        assert forall|i: int| 0 <= i < trace.len() implies !writes((#[trigger] trace[i]).0) && !(
        trace[i].0 is NameAbandoned) && (runs_scripts(trace[i].0) ==> trace[i].0 is PreScripts) by {
            if i < head.len() {
                assert(head[i] == trace[i]);
            } else if head.len() > 0 {
                assert(!writes(head[head.len() - 1].0));
            }
        }
    }
}

/// Without scripts, no script runs.
pub proof fn law_no_scripts_runs_none(s: Switches, install: bool, trace: Seq<(Step, Outcome)>)
    requires
        s.no_scripts,
        reachable(s, install, trace),
    ensures
        forall|i: int| 0 <= i < trace.len() ==> !runs_scripts((#[trigger] trace[i]).0),
    decreases trace.len(),
{
    if trace.len() > 0 {
        let head = trace.drop_last();
        law_no_scripts_runs_none(s, install, head);
        assert forall|i: int| 0 <= i < trace.len() implies !runs_scripts(
            (#[trigger] trace[i]).0,
        ) by {
            if i < head.len() {
                assert(head[i] == trace[i]);
            } else if head.len() > 0 {
                assert(!runs_scripts(head[head.len() - 1].0));
            }
        }
    }
}

/// An update of the lock file alone installs nothing and dumps nothing.
pub proof fn law_lock_only_installs_nothing(s: Switches, trace: Seq<(Step, Outcome)>)
    requires
        s.lock_only,
        reachable(s, false, trace),
    ensures
        forall|i: int|
            0 <= i < trace.len() ==> !((#[trigger] trace[i]).0 is Install) && !(trace[i].0 is Dump)
                && !(trace[i].0 is WriteMetadata) && !(trace[i].0 is PreDumpScripts),
    decreases trace.len(),
{
    if trace.len() > 0 {
        let head = trace.drop_last();
        law_lock_only_installs_nothing(s, head);
        assert forall|i: int| 0 <= i < trace.len() implies !((#[trigger] trace[i]).0 is Install)
            && !(trace[i].0 is Dump) && !(trace[i].0 is WriteMetadata) && !(trace[i].0
            is PreDumpScripts) by {
            if i < head.len() {
                assert(head[i] == trace[i]);
            } else if head.len() > 0 {
                assert(!(head[head.len() - 1].0 is Install));
            }
        }
    }
}

/// Scripts that fail end the run with their exit code, and nothing follows.
pub proof fn law_failing_scripts_end_the_run(s: Switches, last: Option<Step>, code: i32)
    requires
        code != 0,
        !is_end(last),
    ensures
        update_step(s, last, Outcome::Scripts(code)) == (Step::Finish { exit_code: code }),
        install_step(s, last, Outcome::Scripts(code)) == (Step::Finish { exit_code: code }),
{
}

/// The step changes the project: the lock file, the packages, or what PHP code is told of them.
pub open spec fn changes(step: Step) -> bool {
    step is WriteLock || step is Install || step is WriteMetadata || step is Dump
}

/// Nothing of the project is changed before the plugins are checked.
pub proof fn law_plugins_are_checked_first(
    s: Switches,
    install: bool,
    trace: Seq<(Step, Outcome)>,
    k: int,
)
    requires
        reachable(s, install, trace),
        0 <= k < trace.len(),
        changes(trace[k].0),
    ensures
        exists|i: int|
            0 <= i < k && (#[trigger] trace[i]).0 is CheckPlugins && stopped(trace[i].1) is None,
{
    lemma_checked(s, install, trace, k);
}

/// A step that stands only behind the check of the plugins.
spec fn needs_check(step: Step) -> bool {
    !(step is PreScripts || step is Resolve || step is CheckPlugins || step is Finish
        || step is Fail)
}

proof fn lemma_checked(s: Switches, install: bool, trace: Seq<(Step, Outcome)>, k: int)
    requires
        reachable(s, install, trace),
        0 <= k < trace.len(),
        needs_check(trace[k].0),
    ensures
        exists|i: int|
            0 <= i < k && (#[trigger] trace[i]).0 is CheckPlugins && stopped(trace[i].1) is None,
    decreases trace.len(),
{
    let head = trace.drop_last();
    if k < head.len() {
        assert(head[k] == trace[k]);
        lemma_checked(s, install, head, k);
        let i = choose|i: int|
            0 <= i < k && (#[trigger] head[i]).0 is CheckPlugins && stopped(head[i].1) is None;
        assert(trace[i] == head[i]);
    } else {
        assert(head.len() > 0);
        let before = trace[k - 1];
        assert(before == head.last());
        if before.0 is CheckPlugins {
            assert(trace[k - 1].0 is CheckPlugins);
        } else {
            assert(needs_check(before.0));
            lemma_checked(s, install, head, k - 1);
            let i = choose|i: int|
                0 <= i < k - 1 && (#[trigger] head[i]).0 is CheckPlugins && stopped(head[i].1)
                    is None;
            assert(trace[i] == head[i]);
        }
    }
}

/// A run whose plugins are refused ends with an error, and never writes the lock file, installs a
/// package, tells PHP code what is installed, or dumps the loader.
pub proof fn law_refused_plugins_end_the_run(
    s: Switches,
    install: bool,
    trace: Seq<(Step, Outcome)>,
    k: int,
)
    requires
        reachable(s, install, trace),
        0 <= k < trace.len(),
        trace[k].0 is CheckPlugins,
        trace[k].1 is Refused,
    ensures
        forall|i: int| 0 <= i < trace.len() ==> !changes((#[trigger] trace[i]).0),
        forall|i: int| k < i < trace.len() ==> (#[trigger] trace[i]).0 is Fail,
        last_step(s, install, trace) is Fail,
{
    lemma_once_checked(s, install, trace, k);
    lemma_fails_from(s, install, trace, k);
    assert forall|i: int| 0 <= i < trace.len() implies !changes((#[trigger] trace[i]).0) by {
        if i < k && changes(trace[i].0) {
            lemma_checked(s, install, trace, i);
        }
    }
}

/// The plugins are checked once.
proof fn lemma_once_checked(s: Switches, install: bool, trace: Seq<(Step, Outcome)>, k: int)
    requires
        reachable(s, install, trace),
        0 <= k < trace.len(),
        trace[k].0 is CheckPlugins,
    ensures
        forall|i: int| 0 <= i < k ==> !((#[trigger] trace[i]).0 is CheckPlugins),
    decreases trace.len(),
{
    let head = trace.drop_last();
    if k < head.len() {
        assert(head[k] == trace[k]);
        lemma_once_checked(s, install, head, k);
        assert forall|i: int| 0 <= i < k implies !((#[trigger] trace[i]).0 is CheckPlugins) by {
            assert(head[i] == trace[i]);
        }
    } else {
        assert forall|i: int| 0 <= i < k implies !((#[trigger] trace[i]).0 is CheckPlugins) by {
            lemma_start(s, install, head, head.len() - 1);
            assert(head[i] == trace[i]);
        }
    }
}

/// A step before the check of the plugins.
spec fn starts(step: Step) -> bool {
    step is PreScripts || step is Resolve
}

/// In front of a step before the check of the plugins stand only such steps.
proof fn lemma_start(s: Switches, install: bool, trace: Seq<(Step, Outcome)>, k: int)
    requires
        reachable(s, install, trace),
        0 <= k < trace.len(),
        starts(trace[k].0),
        k == trace.len() - 1,
    ensures
        forall|i: int| 0 <= i <= k ==> starts((#[trigger] trace[i]).0),
    decreases trace.len(),
{
    let head = trace.drop_last();
    if head.len() > 0 {
        lemma_start(s, install, head, head.len() - 1);
        assert forall|i: int| 0 <= i <= k implies starts((#[trigger] trace[i]).0) by {
            if i < k {
                assert(head[i] == trace[i]);
            }
        }
    }
}

/// Behind refused plugins stands nothing but the end.
proof fn lemma_fails_from(s: Switches, install: bool, trace: Seq<(Step, Outcome)>, k: int)
    requires
        reachable(s, install, trace),
        0 <= k < trace.len(),
        trace[k].0 is CheckPlugins,
        trace[k].1 is Refused,
    ensures
        forall|i: int| k < i < trace.len() ==> (#[trigger] trace[i]).0 is Fail,
        last_step(s, install, trace) is Fail,
    decreases trace.len(),
{
    let head = trace.drop_last();
    if k < head.len() {
        assert(head[k] == trace[k]);
        lemma_fails_from(s, install, head, k);
        assert forall|i: int| k < i < trace.len() implies (#[trigger] trace[i]).0 is Fail by {
            if i < head.len() {
                assert(head[i] == trace[i]);
            }
        }
    }
}

/// An end stays the end.
pub proof fn law_a_run_ends_once(s: Switches, last: Step, outcome: Outcome)
    requires
        is_end(Some(last)),
    ensures
        update_step(s, Some(last), outcome) == last,
        install_step(s, Some(last), outcome) == last,
{
}

/// An install resolves nothing, and neither builds nor writes the lock file.
pub proof fn law_install_keeps_the_lock(s: Switches, trace: Seq<(Step, Outcome)>)
    requires
        reachable(s, true, trace),
    ensures
        forall|i: int|
            0 <= i < trace.len() ==> !((#[trigger] trace[i]).0 is WriteLock) && !(trace[i].0
                is BuildLock) && !(trace[i].0 is Resolve),
    decreases trace.len(),
{
    if trace.len() > 0 {
        let head = trace.drop_last();
        law_install_keeps_the_lock(s, head);
        assert forall|i: int| 0 <= i < trace.len() implies !((#[trigger] trace[i]).0 is WriteLock)
            && !(trace[i].0 is BuildLock) && !(trace[i].0 is Resolve) by {
            if i < head.len() {
                assert(head[i] == trace[i]);
            } else if head.len() > 0 {
                assert(!(head[head.len() - 1].0 is Resolve));
            }
        }
    }
}

} // verus!
