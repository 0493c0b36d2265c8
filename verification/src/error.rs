//! Error type of the package builder.

use vstd::prelude::*;
use vstd::string::StringExecFns;
use crate::text::concat_str;

verus! {

/// `std::io::Error`, carried along as the cause of a file system error. Its
/// inside is not looked at.
#[verifier::external_type_specification]
#[verifier::external_body]
pub struct ExIoError(std::io::Error);

/// Everything that can go wrong while parsing, building or collecting.
#[derive(Debug)]
pub enum BuilderError {
    /// A PKGBUILD file could not be parsed.
    PkgbuildParse { message: String, path: String },
    /// Dependencies could not be installed.
    Dependency { message: String, dependencies: Vec<String> },
    /// The package build failed.
    Build { message: String },
    /// An artifact could not be collected.
    Artifact { message: String, path: String },
    /// A file system operation failed.
    FileSystem { operation: String, path: String, source: std::io::Error },
    /// An external process failed.
    Process { command: String, exit_code: Option<i32>, stdout: String, stderr: String },
    /// The configuration is unusable.
    Config { message: String },
    /// A precondition on the environment does not hold.
    Validation { message: String },
}

impl BuilderError {
    /// A PKGBUILD parsing error for the file at `path`.
    pub fn pkgbuild_parse(message: String, path: String) -> (r: Self)
        ensures
            r == (BuilderError::PkgbuildParse { message, path }),
    {
        BuilderError::PkgbuildParse { message, path }
    }

    /// A dependency error naming the packages involved.
    pub fn dependency(message: String, dependencies: Vec<String>) -> (r: Self)
        ensures
            r == (BuilderError::Dependency { message, dependencies }),
    {
        BuilderError::Dependency { message, dependencies }
    }

    /// A build error.
    pub fn build(message: String) -> (r: Self)
        ensures
            r == (BuilderError::Build { message }),
    {
        BuilderError::Build { message }
    }

    /// An artifact error for the file at `path`.
    pub fn artifact(message: String, path: String) -> (r: Self)
        ensures
            r == (BuilderError::Artifact { message, path }),
    {
        BuilderError::Artifact { message, path }
    }

    /// A file system error: `operation` failed on `path` because of `source`.
    pub fn file_system(operation: String, path: String, source: std::io::Error) -> (r: Self)
        ensures
            r == (BuilderError::FileSystem { operation, path, source }),
    {
        BuilderError::FileSystem { operation, path, source }
    }

    /// A process error carrying what the command left behind.
    pub fn process(command: String, exit_code: Option<i32>, stdout: String, stderr: String) -> (r:
        Self)
        ensures
            r == (BuilderError::Process { command, exit_code, stdout, stderr }),
    {
        BuilderError::Process { command, exit_code, stdout, stderr }
    }

    /// A configuration error.
    pub fn config(message: String) -> (r: Self)
        ensures
            r == (BuilderError::Config { message }),
    {
        BuilderError::Config { message }
    }

    /// A validation error.
    pub fn validation(message: String) -> (r: Self)
        ensures
            r == (BuilderError::Validation { message }),
    {
        BuilderError::Validation { message }
    }

    /// The one-line description of the error.
    pub open spec fn description(&self) -> Seq<char> {
        match self {
            BuilderError::PkgbuildParse { message, .. } => "PKGBUILD parsing error: "@ + message@,
            BuilderError::Dependency { message, .. } => "Dependency error: "@ + message@,
            BuilderError::Build { message } => "Build error: "@ + message@,
            BuilderError::Artifact { message, .. } => "Artifact error: "@ + message@,
            BuilderError::FileSystem { operation, path, .. } => "File system error: "@
                + operation@ + " failed on "@ + path@,
            BuilderError::Process { command, .. } => "Process error: "@ + command@ + " failed"@,
            BuilderError::Config { message } => "Configuration error: "@ + message@,
            BuilderError::Validation { message } => "Validation error: "@ + message@,
        }
    }

    /// Renders the one-line description of the error.
    pub fn describe(&self) -> (r: String)
        ensures
            r@ == self.description(),
    {
        match self {
            BuilderError::PkgbuildParse { message, .. } => concat_str(
                "PKGBUILD parsing error: ",
                message.as_str(),
            ),
            BuilderError::Dependency { message, .. } => concat_str(
                "Dependency error: ",
                message.as_str(),
            ),
            BuilderError::Build { message } => concat_str("Build error: ", message.as_str()),
            BuilderError::Artifact { message, .. } => concat_str("Artifact error: ", message.as_str()),
            BuilderError::FileSystem { operation, path, .. } => {
                let mut out = concat_str("File system error: ", operation.as_str());
                out.append(" failed on ");
                out.append(path.as_str());
                out
            },
            BuilderError::Process { command, .. } => {
                let mut out = concat_str("Process error: ", command.as_str());
                out.append(" failed");
                out
            },
            BuilderError::Config { message } => concat_str("Configuration error: ", message.as_str()),
            BuilderError::Validation { message } => concat_str(
                "Validation error: ",
                message.as_str(),
            ),
        }
    }
}

} // verus!
