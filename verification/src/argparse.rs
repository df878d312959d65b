//! What a run is asked to do.

use vstd::prelude::*;

verus! {

/// The options of a run.
#[derive(Debug)]
pub struct Args {
    /// The process to scan; `None` leaves the choice to the caller.
    pub pid: Option<i32>,
    /// The directory to write the files found to; `None` asks for a report
    /// only.
    pub output_dir: Option<String>,
    /// Whether to mention the regions that hold no DEX file.
    pub verbose: bool,
}

impl Args {
    /// Whether the files found are to be written out.
    pub open spec fn extracts(&self) -> bool {
        self.output_dir is Some
    }
}

} // verus!
