//! The library's error type.

use vstd::prelude::*;

verus! {

/// Errors of building, locating and patching a version section.
#[derive(Clone, Debug, PartialEq, Eq)]
pub enum Error {
    /// No member was selected for the section.
    NothingEnabled,
    /// The buffer size lies outside the range the format allows.
    InvalidBufferSize { size: usize },
    /// The selected data needs `needed` bytes but the buffer holds `max`.
    SectionTooLarge { needed: usize, max: usize },
    /// A custom output file name was set, but the destination is a file.
    FilenameWithFilePath,
    /// Writing the section data file failed.
    WriteSectionFile { path: String, message: String },
    /// The LLVM tools directory could not be found.
    LlvmToolsNotFound { message: String },
    /// Inspecting the binary's sections failed.
    GetSectionInfo { binary_path: String, message: String },
    /// Rewriting the section in the binary failed.
    UpdateSection { binary_path: String, message: String },
    /// Copying the binary failed.
    CopyBinary { from: String, to: String, message: String },
}

} // verus!
