//! The tool's own upgrade: which arguments the package manager is run with.

use vstd::prelude::*;
use vstd::string::*;

verus! {

/// The arguments of the package manager's run that upgrades the tool:
/// a forced install, of the repository's head when `from_master` is set
/// and of the published package otherwise.
pub open spec fn upgrade_arguments(from_master: bool, git: Seq<char>) -> Seq<Seq<char>> {
    if from_master {
        seq!["install"@, "--force"@, "--git"@, git]
    } else {
        seq!["install"@, "--force"@, "cargo-skyline"@]
    }
}

/// Builds the argument list with which the package manager upgrades the tool.
pub fn self_update_arguments(from_master: bool, git: &str) -> (args: Vec<String>)
    ensures
        args.deep_view() == upgrade_arguments(from_master, git@),
{
    let mut args: Vec<String> = Vec::new();
    args.push(String::from_str("install"));
    args.push(String::from_str("--force"));
    if from_master {
        args.push(String::from_str("--git"));
        args.push(String::from_str(git));
    } else {
        args.push(String::from_str("cargo-skyline"));
    }
    assert(args.deep_view() =~= upgrade_arguments(from_master, git@));
    args
}

} // verus!
