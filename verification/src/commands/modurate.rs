//! Options of the modulation command.

use vstd::prelude::*;

verus! {

/// Arguments of the modulation command.
#[derive(Clone, Debug)]
pub struct ModOptions {
    /// Raw argument list, parsed downstream.
    pub inputs: Vec<String>,
}

} // verus!
