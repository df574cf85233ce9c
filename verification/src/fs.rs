use crate::entry::DirEntry;
use crate::error::VfsResult;
use crate::ops::{DirNode, DirNodeOps};
use std::sync::Arc;
use vstd::prelude::*;

verus! {

/// Statistics of a whole file system.
#[derive(Debug, Clone, Copy, PartialEq, Eq, Structural)]
pub struct StatFs {
    pub fs_type: u32,
    pub block_size: u32,
    pub blocks: u64,
    pub blocks_free: u64,
    pub blocks_available: u64,
    pub file_count: u64,
    pub free_file_count: u64,
    pub name_length: u32,
    pub fragment_size: u32,
    pub mount_flags: u32,
}

/// What a backend offers of a file system as a whole.
pub trait FilesystemOps: Send + Sync {
    /// The directory nodes of the backend.
    type Dir: DirNodeOps;

    /// The name of the file system.
    fn name(&self) -> &str;

    /// The root directory of the file system: the same directory on every
    /// call.
    fn root_dir(&self) -> DirNode<Self::Dir>;

    /// Whether the content of the file system may be cached. A hint for
    /// the layers above; the namespace itself goes by what each directory
    /// says.
    fn is_cacheable(&self) -> bool;

    /// Statistics of the file system.
    fn stat(&self) -> VfsResult<StatFs>;
}

/// Another handle to the same allocation: what `Arc::clone` of the
/// standard library returns. The contract says that the new handle points
/// to the value that the given one points to.
#[verifier::external_body]
fn share<T>(handle: &Arc<T>) -> (r: Arc<T>)
    ensures
        *r == **handle,
{
    Arc::clone(handle)
}

/// A file system of a backend, behind a handle that can be shared.
pub struct Filesystem<FS> {
    ops: Arc<FS>,
}

impl<FS: FilesystemOps> Filesystem<FS> {
    /// The file system of the backend that the handle stands for.
    pub closed spec fn ops(&self) -> FS {
        *self.ops
    }

    pub fn new(ops: Arc<FS>) -> (r: Filesystem<FS>)
        ensures
            r.ops() == *ops,
    {
        Filesystem { ops }
    }

    /// The name of the file system, as the backend gives it.
    pub fn name(&self) -> (r: &str)
        ensures
            FS::name.ensures((&self.ops(),), r),
    {
        self.ops.name()
    }

    /// The root directory of the file system: the directory that the
    /// backend hands over, with an empty cache and an empty slot.
    pub fn root_dir(&self) -> (r: DirNode<FS::Dir>)
        ensures
            r.wf(),
            r.cache_view() == Map::<Seq<char>, DirEntry>::empty(),
            r.mounted() is None,
            exists|handed: DirNode<FS::Dir>| #[trigger]
                FS::root_dir.ensures((&self.ops(),), handed) && r.ops() == handed.ops(),
    {
        let root = self.ops.root_dir();
        assert(FS::root_dir.ensures((&self.ops(),), root));
        root.reset()
    }

    /// Statistics of the file system, as the backend gives them.
    pub fn stat(&self) -> (r: VfsResult<StatFs>)
        ensures
            FS::stat.ensures((&self.ops(),), r),
    {
        self.ops.stat()
    }
}

impl<FS: FilesystemOps> Clone for Filesystem<FS> {
    /// One more handle to the same file system.
    fn clone(&self) -> (r: Filesystem<FS>)
        ensures
            r.ops() == self.ops(),
    {
        Filesystem { ops: share(&self.ops) }
    }
}

} // verus!
