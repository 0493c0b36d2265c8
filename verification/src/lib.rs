//! Safe extraction of package metadata from PKGBUILD manifests, together with
//! the decision logic of the build tooling that consumes it.

pub mod artifacts;
pub mod builder;
pub mod cli;
pub mod config;
pub mod error;
pub mod fs;
pub mod guarantees;
pub mod paths;
pub mod pattern;
pub mod pkgbuild;
pub mod process;
pub mod text;
pub mod version;
