use vstd::prelude::*;

verus! {

/// The command line: `soundbar <command>`.
#[derive(Debug)]
pub struct Cli {
    pub command: Command,
}

/// The subcommands of `soundbar`.
#[derive(Debug)]
pub enum Command {
    /// Capture system audio and render the visualizer.
    Viz,
}

} // verus!
