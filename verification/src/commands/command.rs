//! The commands of the program.
use vstd::prelude::*;

use crate::commands::add::{AddArgs, RemoveArgs};
use crate::commands::audit::AuditArgs;
use crate::commands::check_platform_reqs::CheckPlatformReqsArgs;
use crate::commands::install::{DumpAutoloadArgs, InstallArgs, RunArgs, UpdateArgs};
use crate::commands::outdated::{OutdatedArgs, ShowArgs};
use crate::commands::status::StatusArgs;
use crate::commands::validate::ValidateArgs;
use crate::commands::why::WhyArgs;
use crate::settings::write::ConfigArgs;

verus! {

/// A command with what was asked of it.
#[derive(Debug)]
pub enum Commands {
    Install(InstallArgs),
    Update(UpdateArgs),
    Require(AddArgs),
    Remove(RemoveArgs),
    DumpAutoload(DumpAutoloadArgs),
    Run(RunArgs),
    Show(ShowArgs),
    Why(WhyArgs),
    WhyNot(WhyArgs),
    Outdated(OutdatedArgs),
    Audit(AuditArgs),
    Validate(ValidateArgs),
    Config(ConfigArgs),
    Status(StatusArgs),
    CheckPlatformReqs(CheckPlatformReqsArgs),
    /// The completions for a shell.
    Completion(String),
}

impl Commands {
    /// The command works on more than one thing at once: it asks repositories or unpacks
    /// archives.
    pub open spec fn is_parallel(&self) -> bool {
        match *self {
            Commands::Install(args) => !args.dry_run,
            Commands::Update(args) => !args.dry_run,
            Commands::Require(_) => true,
            Commands::Remove(_) => true,
            Commands::Outdated(_) => true,
            Commands::Audit(_) => true,
            Commands::Show(args) => args.available || args.latest || args.outdated,
            _ => false,
        }
    }

    /// Whether the command works on more than one thing at once.
    pub fn needs_parallel_runtime(&self) -> (r: bool)
        ensures
            r == self.is_parallel(),
    {
        match self {
            Commands::Install(args) => !args.dry_run,
            Commands::Update(args) => !args.dry_run,
            Commands::Require(_) => true,
            Commands::Remove(_) => true,
            Commands::Outdated(_) => true,
            Commands::Audit(_) => true,
            Commands::Show(args) => args.available || args.latest || args.outdated,
            _ => false,
        }
    }
}

} // verus!
