//! The command line, as the rest of the library sees it.

use vstd::prelude::*;

verus! {

/// The command to execute.
#[derive(Debug)]
pub enum Command {
    /// Parse the PKGBUILD and install its dependencies.
    Deps,
    /// Build the package.
    Build {
        /// Clean previous build artifacts before building.
        clean: bool,
        /// Sign the package.
        sign: bool,
    },
    /// Collect build artifacts.
    Artifacts {
        /// Output directory for artifacts.
        output_dir: String,
    },
    /// Generate the version information file.
    Version {
        /// Output file for version information.
        output_file: String,
    },
}

/// The parsed command line.
#[derive(Debug)]
pub struct Args {
    /// Enable debug output.
    pub debug: bool,
    /// Subcommand to execute.
    pub command: Command,
}

} // verus!
