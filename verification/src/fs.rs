//! File system queries.

use vstd::prelude::*;

verus! {

/// Entry point for file system queries.
#[derive(Debug)]
pub struct FileSystemUtils;

impl FileSystemUtils {
    /// A new instance.
    pub fn new() -> (r: Self) {
        FileSystemUtils
    }

    /// `Path::is_file`: whether `path` exists and is a regular file. The
    /// answer depends on what is on disk, so nothing is claimed of it.
    #[verifier::external_body]
    pub fn is_file(&self, path: &str) -> bool {
        std::path::Path::new(path).is_file()
    }

    /// `Path::is_dir`: whether `path` exists and is a directory. The answer
    /// depends on what is on disk, so nothing is claimed of it.
    #[verifier::external_body]
    pub fn is_dir(&self, path: &str) -> bool {
        std::path::Path::new(path).is_dir()
    }

    /// `Path::exists`: whether `path` points at an existing entity. The
    /// answer depends on what is on disk, so nothing is claimed of it.
    #[verifier::external_body]
    pub(crate) fn path_exists(&self, path: &str) -> bool {
        std::path::Path::new(path).exists()
    }
}

impl Default for FileSystemUtils {
    fn default() -> (r: Self) {
        FileSystemUtils::new()
    }
}

} // verus!
