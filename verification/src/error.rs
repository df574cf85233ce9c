use vstd::prelude::*;

verus! {

/// The error kinds that file-system operations report.
///
/// The named variants are the POSIX kinds that the layer itself raises.
/// `Other` carries the raw number of any further kind that a backend
/// reports, so that such an error reaches the caller unchanged.
#[derive(Clone, Copy, Debug, PartialEq, Eq, Structural)]
pub enum VfsError {
    /// No such file or directory.
    ENOENT,
    /// The entry already exists.
    EEXIST,
    /// A file was expected and a directory was found.
    EISDIR,
    /// A directory was expected and something else was found.
    ENOTDIR,
    /// The directory is not empty.
    ENOTEMPTY,
    /// Invalid argument.
    EINVAL,
    /// The resource is busy.
    EBUSY,
    /// The operation would cross a mount boundary.
    EXDEV,
    /// Input/output error of a backend.
    EIO,
    /// The node accepts no device control requests.
    ENOTTY,
    /// Permission denied.
    EACCES,
    /// Any other kind, by its number.
    Other(i32),
}

/// The result of a fallible file-system operation.
pub type VfsResult<T> = Result<T, VfsError>;

} // verus!
