//! The command `outdated`: `show`, with the latest versions, for packages that are behind.
use vstd::prelude::*;

use crate::lock::opt;

verus! {

/// What the user asks of the command.
#[derive(Debug)]
pub struct OutdatedArgs {
    pub package: Option<String>,
    /// Show packages that are up to date too.
    pub all: bool,
    pub locked: bool,
    pub direct: bool,
    pub strict: bool,
    pub major_only: bool,
    pub minor_only: bool,
    pub patch_only: bool,
    /// `text` or `json`.
    pub format: String,
    pub ignore: Vec<String>,
    pub no_dev: bool,
    pub working_dir: String,
}

/// What is asked of `show`.
#[derive(Debug)]
pub struct ShowArgs {
    pub package: Option<String>,
    pub version: Option<String>,
    pub all: bool,
    pub locked: bool,
    pub platform: bool,
    pub available: bool,
    pub self_package: bool,
    pub name_only: bool,
    pub path: bool,
    pub tree: bool,
    pub latest: bool,
    pub outdated: bool,
    pub direct: bool,
    pub format: String,
    pub no_dev: bool,
    pub working_dir: String,
    pub strict: bool,
    pub update_filter: Option<String>,
    pub ignore: Vec<String>,
}

/// Which updates count: the first of major, minor and patch that was asked for.
pub open spec fn filter_of(args: OutdatedArgs) -> Option<Seq<char>> {
    if args.major_only {
        Some("major"@)
    } else if args.minor_only {
        Some("minor"@)
    } else if args.patch_only {
        Some("patch"@)
    } else {
        None
    }
}

/// What is asked of `show`.
pub fn show_args(args: OutdatedArgs) -> (r: ShowArgs)
    ensures
        opt(r.update_filter) == filter_of(args),
        r == (ShowArgs {
            package: args.package,
            version: None,
            all: args.all,
            locked: args.locked,
            platform: false,
            available: false,
            self_package: false,
            name_only: false,
            path: false,
            tree: false,
            latest: true,
            outdated: !args.all,
            direct: args.direct,
            format: args.format,
            no_dev: args.no_dev,
            working_dir: args.working_dir,
            strict: args.strict,
            update_filter: r.update_filter,
            ignore: args.ignore,
        }),
{
    let update_filter = if args.major_only {
        Some("major".to_owned())
    } else if args.minor_only {
        Some("minor".to_owned())
    } else if args.patch_only {
        Some("patch".to_owned())
    } else {
        None
    };
    ShowArgs {
        package: args.package,
        version: None,
        all: args.all,
        locked: args.locked,
        platform: false,
        available: false,
        self_package: false,
        name_only: false,
        path: false,
        tree: false,
        latest: true,
        outdated: !args.all,
        direct: args.direct,
        format: args.format,
        no_dev: args.no_dev,
        working_dir: args.working_dir,
        strict: args.strict,
        update_filter,
        ignore: args.ignore,
    }
}

} // verus!
