//! Decisions for command-line argument handling. The surrounding binary
//! parses the raw arguments and prints; the choice of what to do is made
//! here.

use vstd::prelude::*;
use crate::error_code;

verus! {

/// What the process does for a given set of arguments.
#[derive(Clone, Copy, Debug, PartialEq, Eq, Structural)]
pub enum ArgsAction {
    /// Print the help text and exit cleanly.
    ShowHelp,
    /// Print the version line and exit cleanly.
    ShowVersion,
    /// Print the default configuration and exit cleanly.
    ShowDefaultConfig,
    /// No path given: read the configuration from its default location.
    UseDefaultConfig,
    /// One free argument: read the configuration from that path.
    LoadConfigFile,
    /// More than one free argument: print the help text and exit with an
    /// argument error.
    RejectExtraArgs,
}

/// Decides what the arguments mean: help wins over version, version over
/// printing the default configuration, and at most one free argument (a
/// configuration path) is accepted.
pub fn parse_args(has_help: bool, has_version: bool, has_print_default: bool, free_args: usize)
    -> (r: ArgsAction)
    ensures
        r == (if has_help {
            ArgsAction::ShowHelp
        } else if has_version {
            ArgsAction::ShowVersion
        } else if has_print_default {
            ArgsAction::ShowDefaultConfig
        } else if free_args == 0 {
            ArgsAction::UseDefaultConfig
        } else if free_args == 1 {
            ArgsAction::LoadConfigFile
        } else {
            ArgsAction::RejectExtraArgs
        }),
{
    if has_help {
        ArgsAction::ShowHelp
    } else if has_version {
        ArgsAction::ShowVersion
    } else if has_print_default {
        ArgsAction::ShowDefaultConfig
    } else if free_args == 0 {
        ArgsAction::UseDefaultConfig
    } else if free_args == 1 {
        ArgsAction::LoadConfigFile
    } else {
        ArgsAction::RejectExtraArgs
    }
}

/// The exit code an action forces, or `None` where the process goes on (to
/// serve, or to report an unparseable configuration file on its own).
pub fn action_exit_code(a: ArgsAction) -> (r: Option<i32>)
    ensures
        match a {
            ArgsAction::ShowHelp => r == Some(0i32),
            ArgsAction::ShowVersion => r == Some(0i32),
            ArgsAction::ShowDefaultConfig => r == Some(0i32),
            ArgsAction::RejectExtraArgs => r == Some(error_code::ARGUMENT_ERROR),
            ArgsAction::UseDefaultConfig => r is None,
            ArgsAction::LoadConfigFile => r is None,
        },
{
    match a {
        ArgsAction::ShowHelp => Some(0),
        ArgsAction::ShowVersion => Some(0),
        ArgsAction::ShowDefaultConfig => Some(0),
        ArgsAction::RejectExtraArgs => Some(error_code::ARGUMENT_ERROR),
        ArgsAction::UseDefaultConfig => None,
        ArgsAction::LoadConfigFile => None,
    }
}

} // verus!
