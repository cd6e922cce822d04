//! `actived`: shows the currently active node version.

use vstd::prelude::*;

verus! {

/// Check the currently active node version
#[derive(Debug)]
pub struct ActivedArgs {}

} // verus!
