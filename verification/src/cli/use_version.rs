//! `use`: switches the activated node version, installing it when missing.

use vstd::prelude::*;

verus! {

/// Switch the activated node version
#[derive(Debug)]
pub struct UseArgs {
    /// The version to switch to, such as: "latest", "lts", "22", "16.20.2"
    pub version: String,
    /// Agree to all operations without confirmation
    pub allow: bool,
    /// Set the node download mirror
    pub node_mirror: String,
}

/// What `use` does before switching, given whether the target version is
/// installed.
#[derive(Debug, Clone, Copy, PartialEq, Eq, Structural)]
pub enum SwitchStep {
    /// The version is installed: switch to it.
    Switch,
    /// The version is missing and `--allow` was given: install it, then
    /// switch.
    Install,
    /// The version is missing: ask whether to install it.
    Ask,
}

/// Decides whether a missing target version is installed before the switch.
pub fn switch_step(installed: bool, allow: bool) -> (step: SwitchStep)
    ensures
        step == (if installed {
            SwitchStep::Switch
        } else if allow {
            SwitchStep::Install
        } else {
            SwitchStep::Ask
        }),
{
    if installed {
        SwitchStep::Switch
    } else if allow {
        SwitchStep::Install
    } else {
        SwitchStep::Ask
    }
}

} // verus!
