use crate::entry::DirEntry;
use crate::error::{VfsError, VfsResult};
use crate::mount::Mountpoint;
use crate::table::Table;
use crate::types::{Metadata, MetadataUpdate, NodePermission, NodeType};
use vstd::prelude::*;

verus! {

/// The size in the metadata that a node reported; a failure of the
/// report stays the failure.
pub fn reported_size(reported: VfsResult<Metadata>) -> (r: VfsResult<u64>)
    ensures
        r == match reported {
            Ok(metadata) => Ok::<u64, VfsError>(metadata.size),
            Err(e) => Err(e),
        },
{
    match reported {
        Ok(metadata) => Ok(metadata.size),
        Err(e) => Err(e),
    }
}

/// What every node of a backend offers, file or directory.
///
/// A backend answers from its own state, which the namespace does not
/// see: nothing is promised of any answer.
pub trait NodeOps: Send + Sync {
    /// The file systems of the backend.
    type Filesystem;

    /// The file system that the node belongs to.
    fn filesystem(&self) -> &Self::Filesystem;

    /// The inode number of the node.
    fn inode(&self) -> u64;

    /// The metadata of the node.
    fn metadata(&self) -> VfsResult<Metadata>;

    /// Updates the metadata of the node.
    fn update_metadata(&self, update: MetadataUpdate) -> VfsResult<()>;

    /// The size of the node; if a backend says nothing else, the size in
    /// its metadata, as [`reported_size`] reads it.
    fn len(&self) -> VfsResult<u64> {
        reported_size(self.metadata())
    }

    /// Writes the node through to its storage.
    fn sync(&self, data_only: bool) -> VfsResult<()>;
}

/// What a file node of a backend offers.
pub trait FileNodeOps: NodeOps {
    /// Reads bytes from `offset` on into `buf`; returns how many.
    fn read_at(&self, buf: &mut [u8], offset: u64) -> VfsResult<usize>;

    /// Writes the bytes of `buf` at `offset`; returns how many.
    fn write_at(&self, buf: &[u8], offset: u64) -> VfsResult<usize>;

    /// Appends the bytes of `buf`; returns how many were written, and the
    /// new size of the file.
    fn append(&self, buf: &[u8]) -> VfsResult<(usize, u64)>;

    /// Sets the size of the file.
    fn set_len(&self, len: u64) -> VfsResult<()>;

    /// Sets the target of a symbolic link.
    fn set_symlink(&self, target: &str) -> VfsResult<()>;

    /// A device control request; a file that knows none refuses it.
    fn ioctl(&self, cmd: u32, arg: usize) -> VfsResult<usize> {
        Err(VfsError::ENOTTY)
    }
}

/// Receives the entries of a directory, one by one.
pub trait DirEntrySink {
    /// Takes one entry; `offset` is where the next entry is found. Returns
    /// `false` when the sink wants no more.
    ///
    /// A sink should not work on the node from inside `accept`: the backend
    /// may hold a lock while it lists the directory.
    fn accept(&mut self, name: &str, ino: u64, node_type: NodeType, offset: u64) -> bool;
}

/// What a directory node of a backend offers.
pub trait DirNodeOps: NodeOps + Sized {
    /// The file nodes of the same backend, which belong to the same file
    /// systems.
    type File: FileNodeOps<Filesystem = Self::Filesystem>;

    /// Hands the entries from `offset` on to `sink`, `.` and `..` among
    /// them; returns how many were handed over.
    fn read_dir<S: DirEntrySink>(&self, offset: u64, sink: &mut S) -> VfsResult<usize>;

    /// Finds the node of a name.
    fn lookup(&self, name: &str) -> VfsResult<NewNode<Self>>;

    /// Whether the entries of this directory may be cached. A directory
    /// whose content changes behind the namespace answers `false`; every
    /// lookup in it then asks the backend.
    fn is_cacheable(&self) -> bool {
        true
    }

    /// Creates a node under a name.
    fn create(&self, name: &str, node_type: NodeType, permission: NodePermission) -> VfsResult<
        NewNode<Self>,
    >;

    /// Makes `name` one more name of an existing node.
    fn link(&self, name: &str, node: &Node<Self>) -> VfsResult<NewNode<Self>>;

    /// Removes a name. A directory that is not empty is refused with
    /// `ENOTEMPTY`.
    fn unlink(&self, name: &str) -> VfsResult<()>;

    /// Moves `src_name` of this directory to `dst_name` of `dst_dir`,
    /// replacing what is there. The caller has made sure that a directory
    /// only replaces an empty directory or nothing, and anything else only
    /// replaces what is no directory.
    fn rename(&self, src_name: &str, dst_dir: &Self, dst_name: &str) -> VfsResult<()>;
}

/// A file node: the file of a backend.
pub struct FileNode<F> {
    ops: F,
}

impl<F: FileNodeOps> FileNode<F> {
    /// The file of the backend that the node stands for.
    pub closed spec fn ops(&self) -> F {
        self.ops
    }

    pub fn new(ops: F) -> (r: FileNode<F>)
        ensures
            r.ops() == ops,
    {
        FileNode { ops }
    }

    /// The file of the backend.
    pub fn inner(&self) -> (r: &F)
        ensures
            *r == self.ops(),
    {
        &self.ops
    }
}

/// The map from names to entries that a table of a directory stands for.
pub open spec fn cache_of(table: Map<(int, Seq<char>), int>) -> Map<Seq<char>, DirEntry> {
    Map::new(
        |name: Seq<char>| table.contains_key((0int, name)),
        |name: Seq<char>| DirEntry { id: table[(0int, name)] as usize },
    )
}

/// A directory node: the directory of a backend, the cache of its
/// children, and the slot for a mount that is stacked on it.
pub struct DirNode<D> {
    ops: D,
    cache: Table,
    mountpoint: Option<Mountpoint>,
}

impl<D: DirNodeOps> DirNode<D> {
    /// The table is in order.
    pub closed spec fn wf(&self) -> bool {
        &&& self.cache.wf()
        &&& forall|key: (int, Seq<char>)| #[trigger] self.cache@.contains_key(key) ==> key.0 == 0
    }

    /// The directory of the backend that the node stands for.
    pub closed spec fn ops(&self) -> D {
        self.ops
    }

    /// The cached children, by name.
    pub closed spec fn cache_view(&self) -> Map<Seq<char>, DirEntry> {
        cache_of(self.cache@)
    }

    /// The mount that is stacked on the directory.
    pub closed spec fn mounted(&self) -> Option<Mountpoint> {
        self.mountpoint
    }

    /// A directory node with an empty cache and an empty slot.
    pub fn new(ops: D) -> (r: DirNode<D>)
        ensures
            r.wf(),
            r.ops() == ops,
            r.cache_view() == Map::<Seq<char>, DirEntry>::empty(),
            r.mounted() is None,
    {
        let r = DirNode { ops, cache: Table::new(), mountpoint: None };
        assert(r.cache_view() =~= Map::<Seq<char>, DirEntry>::empty());
        r
    }

    /// The same directory with an empty cache and an empty slot.
    pub(crate) fn reset(self) -> (r: DirNode<D>)
        ensures
            r.wf(),
            r.cache_view() == Map::<Seq<char>, DirEntry>::empty(),
            r.mounted() is None,
            r.ops() == self.ops(),
    {
        let r = DirNode { ops: self.ops, cache: Table::new(), mountpoint: None };
        assert(r.cache_view() =~= Map::<Seq<char>, DirEntry>::empty());
        r
    }

    /// The directory of the backend.
    pub fn inner(&self) -> (r: &D)
        ensures
            *r == self.ops(),
    {
        &self.ops
    }

    /// The mount that is stacked on the directory.
    pub fn mountpoint(&self) -> (r: Option<Mountpoint>)
        ensures
            r == self.mounted(),
    {
        self.mountpoint
    }

    /// Whether a mount is stacked on the directory.
    pub fn is_mountpoint(&self) -> (r: bool)
        ensures
            r == self.mounted() is Some,
    {
        self.mountpoint.is_some()
    }

    /// What the cache holds under `name`, whether or not the directory is
    /// cacheable.
    pub(crate) fn cached(&self, name: &String) -> (r: Option<DirEntry>)
        requires
            self.wf(),
        ensures
            match r {
                Some(e) => self.cache_view().contains_key(name@) && self.cache_view()[name@] == e,
                None => !self.cache_view().contains_key(name@),
            },
    {
        match self.cache.get(0, name) {
            Some(id) => Some(DirEntry { id }),
            None => None,
        }
    }

    /// Looks a name up in the cache. The backend is asked whether the
    /// directory is cacheable; one that is not answers `None`.
    pub fn lookup_cache(&self, name: &str) -> (r: Option<DirEntry>)
        requires
            self.wf(),
        ensures
            exists|cacheable: bool| #[trigger]
                D::is_cacheable.ensures((&self.ops(),), cacheable) && r == if cacheable
                    && self.cache_view().contains_key(name@) {
                    Some(self.cache_view()[name@])
                } else {
                    None
                },
    {
        let cacheable = self.ops.is_cacheable();
        assert(D::is_cacheable.ensures((&self.ops(),), cacheable));
        if cacheable {
            let key = name.to_owned();
            self.cached(&key)
        } else {
            None
        }
    }

    pub(crate) fn cache_put(&mut self, name: String, child: DirEntry) -> (r: Option<DirEntry>)
        requires
            old(self).wf(),
        ensures
            final(self).wf(),
            final(self).cache_view() == old(self).cache_view().insert(name@, child),
            final(self).mounted() == old(self).mounted(),
            final(self).ops() == old(self).ops(),
            r == if old(self).cache_view().contains_key(name@) {
                Some(old(self).cache_view()[name@])
            } else {
                None
            },
    {
        let ghost key = name@;
        let previous = self.cache.insert(0, name, child.id);
        assert(self.cache_view() =~= old(self).cache_view().insert(key, child));
        match previous {
            Some(id) => Some(DirEntry { id }),
            None => None,
        }
    }

    pub(crate) fn cache_drop(&mut self, name: &String) -> (r: Option<DirEntry>)
        requires
            old(self).wf(),
        ensures
            final(self).wf(),
            final(self).cache_view() == old(self).cache_view().remove(name@),
            final(self).mounted() == old(self).mounted(),
            final(self).ops() == old(self).ops(),
            r == if old(self).cache_view().contains_key(name@) {
                Some(old(self).cache_view()[name@])
            } else {
                None
            },
    {
        let previous = self.cache.remove(0, name);
        assert(self.cache_view() =~= old(self).cache_view().remove(name@));
        match previous {
            Some(id) => Some(DirEntry { id }),
            None => None,
        }
    }

    pub(crate) fn cache_take(&mut self) -> (r: Vec<usize>)
        requires
            old(self).wf(),
        ensures
            final(self).wf(),
            final(self).cache_view() == Map::<Seq<char>, DirEntry>::empty(),
            final(self).mounted() == old(self).mounted(),
            final(self).ops() == old(self).ops(),
            forall|id: usize| #[trigger]
                r@.contains(id) <==> exists|name: Seq<char>|
                    old(self).cache_view().contains_key(name) && #[trigger] old(
                        self,
                    ).cache_view()[name] == (DirEntry { id }),
    {
        let ghost before = self.cache@;
        let r = self.cache.take_values();
        proof {
            assert(self.cache_view() =~= Map::<Seq<char>, DirEntry>::empty());
            old(self).cache.lemma_values_bounded();
            assert forall|id: usize| #[trigger]
                r@.contains(id) <==> exists|name: Seq<char>|
                    old(self).cache_view().contains_key(name) && #[trigger] old(
                        self,
                    ).cache_view()[name] == (DirEntry { id }) by {
                if r@.contains(id) {
                    let key = choose|key: (int, Seq<char>)|
                        before.contains_key(key) && #[trigger] before[key] == id as int;
                    assert(key.0 == 0);
                    assert(key == (0int, key.1));
                    assert(old(self).cache_view().contains_key(key.1));
                    assert(old(self).cache_view()[key.1] == (DirEntry { id }));
                }
                if exists|name: Seq<char>|
                    old(self).cache_view().contains_key(name) && #[trigger] old(
                        self,
                    ).cache_view()[name] == (DirEntry { id }) {
                    let name = choose|name: Seq<char>|
                        old(self).cache_view().contains_key(name) && #[trigger] old(
                            self,
                        ).cache_view()[name] == (DirEntry { id });
                    assert(before.contains_key((0int, name)));
                    assert(before[(0int, name)] == id as int);
                    assert(crate::table::binds_value(before, id as int));
                }
            }
        }
        r
    }

    pub(crate) fn set_mountpoint(&mut self, mountpoint: Option<Mountpoint>)
        ensures
            final(self).wf() == old(self).wf(),
            final(self).cache_view() == old(self).cache_view(),
            final(self).mounted() == mountpoint,
            final(self).ops() == old(self).ops(),
    {
        self.mountpoint = mountpoint;
    }
}

/// The node of an entry.
pub enum Node<D: DirNodeOps> {
    File(FileNode<D::File>),
    Dir(DirNode<D>),
}

/// The object of the backend that a node stands for.
pub enum Backing<D: DirNodeOps> {
    File(D::File),
    Dir(D),
}

impl<D: DirNodeOps> Node<D> {
    /// The object of the backend that the node stands for.
    pub open spec fn backing(&self) -> Backing<D> {
        match self {
            Node::File(file) => Backing::File(file.ops()),
            Node::Dir(dir) => Backing::Dir(dir.ops()),
        }
    }
}

/// A node as a backend hands it over, before the namespace has entered
/// it. A file comes with its declared type; a directory is of type
/// `Directory`.
pub enum NewNode<D: DirNodeOps> {
    File(FileNode<D::File>, NodeType),
    Dir(DirNode<D>),
}

impl<D: DirNodeOps> NewNode<D> {
    /// The declared type of the node.
    pub open spec fn node_type(&self) -> NodeType {
        match self {
            NewNode::File(_, node_type) => *node_type,
            NewNode::Dir(_) => NodeType::Directory,
        }
    }

    /// The object of the backend that the node stands for.
    pub open spec fn backing(&self) -> Backing<D> {
        match self {
            NewNode::File(file, _) => Backing::File(file.ops()),
            NewNode::Dir(dir) => Backing::Dir(dir.ops()),
        }
    }
}

} // verus!
