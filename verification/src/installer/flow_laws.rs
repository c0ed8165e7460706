//! What holds of a run that succeeds: no step of it is left out.
use vstd::prelude::*;

use crate::installer::flow::{
    install_step, reachable, update_step, Outcome, Step, Switches,
};

verus! {

/// The step was taken.
pub open spec fn taken(trace: Seq<(Step, Outcome)>, step: Step) -> bool {
    exists|i: int| 0 <= i < trace.len() && (#[trigger] trace[i]).0 == step
}

/// The step is one on the way to the end, or the end of a run that succeeds.
pub open spec fn is_well(step: Step) -> bool {
    match step {
        Step::Fail => false,
        Step::Finish { exit_code } => exit_code == 0,
        _ => true,
    }
}

spec fn is_in_place(step: Step, full: bool) -> bool {
    step is Install || step is WriteMetadata || step is PreDumpScripts || step is Dump
        || step is PostDumpScripts || is_told(step, full)
}

spec fn is_told(step: Step, full: bool) -> bool {
    step is Report || step is NameAbandoned || step is PostScripts || (step is Finish && full)
}

spec fn is_whole(s: Switches, install: bool, trace: Seq<(Step, Outcome)>) -> bool {
    let t = trace.last().0;
    let full = install || !s.lock_only;
    is_well(t) ==> {
        &&& !s.no_scripts ==> taken(trace, Step::PreScripts)
        &&& !install && !(t is PreScripts) ==> taken(trace, Step::Resolve)
        &&& !(t is PreScripts) && !(t is Resolve) ==> taken(trace, Step::CheckPlugins)
        &&& !install && !(t is PreScripts) && !(t is Resolve) && !(t is CheckPlugins) ==> taken(
            trace,
            Step::BuildLock,
        )
        &&& t is ReportLock ==> !full
        &&& t is Resolve || t is BuildLock || t is WriteLock ==> !install
        &&& t is Install || t is WriteMetadata || t is PreDumpScripts || t is Dump
            || t is PostDumpScripts || t is Report || t is NameAbandoned || t is PostScripts ==> full
        &&& is_in_place(t, full) ==> taken(trace, Step::Install)
        &&& t is WriteMetadata ==> !s.dry_run && s.no_autoloader
        &&& t is PreDumpScripts || t is PostDumpScripts ==> !s.no_scripts
        &&& t is PreDumpScripts || t is Dump || t is PostDumpScripts ==> !s.dry_run
            && !s.no_autoloader
        &&& (t is Dump || t is PostDumpScripts) && !s.no_scripts ==> taken(
            trace,
            Step::PreDumpScripts,
        )
        &&& t is PostDumpScripts ==> taken(trace, Step::Dump)
        &&& is_told(t, full) && !s.dry_run && s.no_autoloader ==> taken(trace, Step::WriteMetadata)
        &&& is_told(t, full) && !s.dry_run && !s.no_autoloader ==> taken(trace, Step::Dump)
        &&& is_told(t, full) && !s.dry_run && !s.no_autoloader && !s.no_scripts ==> taken(
            trace,
            Step::PreDumpScripts,
        ) && taken(trace, Step::PostDumpScripts)
        &&& is_told(t, full) ==> taken(trace, Step::Report)
        &&& t is NameAbandoned || t is PostScripts ==> !s.dry_run
        &&& (t is PostScripts || (t is Finish && full && !s.dry_run)) ==> taken(
            trace,
            Step::NameAbandoned,
        )
        &&& t is Finish && full && !s.dry_run && !s.no_scripts ==> taken(trace, Step::PostScripts)
        &&& t is PostScripts ==> !s.no_scripts
    }
}

proof fn lemma_stays(trace: Seq<(Step, Outcome)>)
    requires
        trace.len() > 0,
    ensures
        forall|step: Step| taken(trace.drop_last(), step) ==> #[trigger] taken(trace, step),
        taken(trace, trace.last().0),
{
    assert forall|step: Step| taken(trace.drop_last(), step) implies #[trigger] taken(
        trace,
        step,
    ) by {
        let head = trace.drop_last();
        let i = choose|i: int| 0 <= i < head.len() && (#[trigger] head[i]).0 == step;
        assert(trace[i] == head[i]);
    }
    assert(trace[trace.len() - 1] == trace.last());
}

proof fn lemma_whole(s: Switches, install: bool, trace: Seq<(Step, Outcome)>)
    requires
        reachable(s, install, trace),
        trace.len() > 0,
    ensures
        is_whole(s, install, trace),
    decreases trace.len(),
{
    lemma_stays(trace);
    let head = trace.drop_last();
    if head.len() > 0 {
        lemma_whole(s, install, head);
        let before = head.last().0;
        let outcome = head.last().1;
        let t = trace.last().0;
        assert(is_well(t) ==> is_well(before));
        match before {
            Step::PreScripts => {},
            Step::Resolve => {},
            Step::CheckPlugins => {},
            Step::BuildLock => {},
            Step::WriteLock => {},
            Step::ReportLock { .. } => {},
            Step::Install => {},
            Step::WriteMetadata => {},
            Step::PreDumpScripts => {},
            Step::Dump => {},
            Step::PostDumpScripts => {},
            Step::Report => {},
            Step::NameAbandoned => {},
            Step::PostScripts => {},
            Step::Finish { .. } => {},
            Step::Fail => {},
        }
    }
}

/// A run that succeeds has installed the packages and said so, and has told PHP code what is
/// installed: with the loader, or alone where no loader is wanted. An update has resolved the
/// requirements and built the lock file. Only a dry run and an update of the lock file alone do
/// less.
pub proof fn law_successful_run_leaves_nothing_out(
    s: Switches,
    install: bool,
    trace: Seq<(Step, Outcome)>,
)
    requires
        reachable(s, install, trace),
        trace.len() > 0,
        trace.last().0 == (Step::Finish { exit_code: 0 }),
    ensures
        taken(trace, Step::CheckPlugins),
        !install ==> taken(trace, Step::Resolve) && taken(trace, Step::BuildLock),
        install || !s.lock_only ==> taken(trace, Step::Install) && taken(trace, Step::Report),
        (install || !s.lock_only) && !s.dry_run ==> taken(trace, Step::NameAbandoned),
        (install || !s.lock_only) && !s.dry_run && s.no_autoloader ==> taken(
            trace,
            Step::WriteMetadata,
        ),
        (install || !s.lock_only) && !s.dry_run && !s.no_autoloader ==> taken(trace, Step::Dump),
{
    lemma_whole(s, install, trace);
}

/// In a run that succeeds all scripts have run that are not switched off: those for the start, and
/// but for a dry run and an update of the lock file alone those for the end and those around the
/// dump of the loader.
pub proof fn law_successful_run_has_run_the_scripts(
    s: Switches,
    install: bool,
    trace: Seq<(Step, Outcome)>,
)
    requires
        reachable(s, install, trace),
        trace.len() > 0,
        trace.last().0 == (Step::Finish { exit_code: 0 }),
        !s.no_scripts,
    ensures
        taken(trace, Step::PreScripts),
        (install || !s.lock_only) && !s.dry_run ==> taken(trace, Step::PostScripts),
        (install || !s.lock_only) && !s.dry_run && !s.no_autoloader ==> taken(
            trace,
            Step::PreDumpScripts,
        ) && taken(trace, Step::PostDumpScripts),
{
    lemma_whole(s, install, trace);
}

/// A lock file that changed is written at once, but for a dry run; one that did not change is left
/// alone.
pub proof fn law_changed_lock_is_written(s: Switches)
    ensures
        !s.dry_run ==> update_step(
            s,
            Some(Step::BuildLock),
            Outcome::Built { lock_changed: true },
        ) is WriteLock,
        !(update_step(
            s,
            Some(Step::BuildLock),
            Outcome::Built { lock_changed: false },
        ) is WriteLock),
{
}

/// Requirements that cannot be met end the run with one, and a step that could not be done ends it
/// with an error.
pub proof fn law_what_fails_ends_the_run(s: Switches, last: Option<Step>)
    requires
        last matches Some(step) ==> !(step is Finish) && !(step is Fail),
    ensures
        update_step(s, last, Outcome::Unresolvable) == (Step::Finish { exit_code: 1 }),
        install_step(s, last, Outcome::Unresolvable) == (Step::Finish { exit_code: 1 }),
        update_step(s, last, Outcome::Failed) is Fail,
        install_step(s, last, Outcome::Failed) is Fail,
        update_step(s, last, Outcome::Refused) is Fail,
        install_step(s, last, Outcome::Refused) is Fail,
{
}

} // verus!
