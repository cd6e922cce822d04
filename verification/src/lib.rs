//! Core logic of a Node.js version manager: version numbers and version
//! requirements, selection among released versions, installation planning
//! and the bookkeeping of the `PATH` environment variable.

pub mod text;
pub mod pattern;
pub mod version;
pub mod node_version;
pub mod env;
pub mod local_version;
pub mod cli;
