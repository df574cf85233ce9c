//! The core of a virtual file system: a namespace of cached directory
//! entries over the file systems of backends, mounts that graft one file
//! system onto a directory of another, and the resolution of paths against
//! a root and a current directory.
//!
//! All state of a namespace lives in one [`Vfs`]. Entries, mounts and
//! positions are named by handles; every operation takes the namespace it
//! works on. What a backend answers is not known in advance: the contract
//! of an operation that asks the backend says what the namespace becomes
//! for each answer.

pub mod again;
pub mod dir;
pub mod entry;
pub mod error;
pub mod fs;
pub mod laws;
pub mod model;
pub mod mount;
pub mod ops;
pub mod path;
pub mod resolve;
pub mod round_trip;
pub mod steps;
pub mod subtree;
pub mod table;
pub mod types;
pub mod vfs;
pub mod walk;

pub use dir::{ChildProbe, OpenOptions};
pub use entry::{DirEntry, Reference, ReferenceKey, WeakDirEntry};
pub use error::{VfsError, VfsResult};
pub use fs::{Filesystem, FilesystemOps, StatFs};
pub use mount::{Location, Mountpoint};
pub use ops::{
    DirEntrySink, DirNode, DirNodeOps, FileNode, FileNodeOps, NewNode, Node, NodeOps,
};
pub use resolve::FsResolver;
pub use types::{Metadata, MetadataUpdate, NodePermission, NodeType, Timestamp};
pub use vfs::Vfs;
