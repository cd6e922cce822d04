//! `show`: lists released versions, or shows the details of one.

use vstd::prelude::*;

verus! {

/// View released versions of node
#[derive(Debug)]
pub struct ShowArgs {
    /// View detailed information for a specified version
    /// Such as: "latest", "lts", "22", "16.20.2"
    pub version: Option<String>,
}

} // verus!
