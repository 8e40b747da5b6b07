use vstd::prelude::*;

verus! {

/// Why a build stopped. Every error ends the build it comes from.
#[derive(Debug, Clone, PartialEq, Eq)]
pub enum MkfsError {
    /// A target of a kind that its role does not take.
    BadConfig,
    /// A configured path could not be opened for reading.
    FileNotFound(String),
    /// The boot code is empty.
    EmptyBootloader,
    /// The inode record is not exactly one sector wide; holds its width.
    InvalidInode(usize),
    /// A name does not fit in the inode's name field.
    NameTooLong,
}

} // verus!
