//! What the host hands over at start-up.
use vstd::prelude::*;

verus! {

/// Background and particle colors, each `#RRGGBB`.
#[derive(Clone, Debug)]
pub struct Config {
    pub bgcolor: String,
    pub color: String,
}

} // verus!
