//! The command-line surface, as plain data. The host's argument parser
//! fills these in and converts; every decision taken on them lives in the
//! library.

use vstd::prelude::*;

verus! {

/// The parsed command line.
#[derive(Debug)]
pub struct Cli {
    /// Cache directory for downloaded templates, when given.
    pub cache_dir: Option<String>,
    /// The subcommand, when given; the default is generating interactively.
    pub command: Option<Commands>,
}

/// The subcommands.
#[derive(Debug)]
pub enum Commands {
    /// Update the local cache of templates.
    Update,
    /// List the available templates.
    List,
    /// Interactively build the output file.
    Generate { output: Option<String> },
    /// Replace the running binary with the latest release.
    SelfUpdate,
}

} // verus!
