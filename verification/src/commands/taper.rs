//! Options of the taper command, which re-fades an existing file.

use vstd::prelude::*;
use crate::commands::common::TaperSpecOptions;

verus! {

/// Arguments of the taper command.
#[derive(Clone, Debug)]
pub struct TaperOptions {
    /// Input filename.
    pub input: String,
    /// Output filename: absent means a derived name, `Some(None)` means
    /// the input file is overwritten.
    pub output: Option<Option<String>>,
    /// The taper to apply.
    pub taper_opt: TaperSpecOptions,
}

} // verus!
