//! The commands of the tool, their arguments, and the decisions each
//! command takes before it touches the system.

pub mod actived;
pub mod add_path;
pub mod clean_path;
pub mod install;
pub mod list;
pub mod node_mirror;
pub mod show;
pub mod uninstall;
pub mod use_version;

use vstd::prelude::*;

use actived::ActivedArgs;
use add_path::AddPathArgs;
use clean_path::CleanPathArgs;
use install::InstallArgs;
use list::ListArgs;
use node_mirror::NodeMirrorArgs;
use show::ShowArgs;
use uninstall::UninstallArgs;
use use_version::UseArgs;

verus! {

/// A nodejs version management tool
#[derive(Debug)]
pub struct Cli {
    pub command: Commands,
}

/// Supported subcommands
#[derive(Debug)]
pub enum Commands {
    Actived(ActivedArgs),
    List(ListArgs),
    Show(ShowArgs),
    Install(InstallArgs),
    Uninstall(UninstallArgs),
    Use(UseArgs),
    AddPath(AddPathArgs),
    CleanPath(CleanPathArgs),
    NodeMirror(NodeMirrorArgs),
}

} // verus!
