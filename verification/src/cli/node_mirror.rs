//! `node-mirror`: shows or sets the node download mirror.

use vstd::prelude::*;

verus! {

/// Set the node download mirror to env.
/// like: https://npmmirror.com/mirrors/node
#[derive(Debug)]
pub struct NodeMirrorArgs {
    pub mirror: Option<String>,
}

/// The environment variable that holds the node download mirror.
pub const ENV_NAME: &'static str = "RIGN_NODE_MIRROR";

} // verus!
