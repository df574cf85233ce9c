use crate::error::{VfsError, VfsResult};
use crate::model::fresh_entry;
use crate::ops::{
    Backing, DirNode, DirNodeOps, FileNode, FileNodeOps, NewNode, Node, NodeOps,
};
use crate::path::{build_absolute_path, names_of};
use crate::types::{Metadata, MetadataUpdate, NodeType};
use crate::vfs::Vfs;
use vstd::prelude::*;
use vstd::utf8::{decode_utf8, valid_utf8};

verus! {

/// A directory entry: the handle of one entry of a [`Vfs`].
///
/// Two handles name the same entry exactly if they are equal. The number
/// is the position of the entry in the namespace it belongs to, and grows
/// with the time at which the entry was entered.
#[derive(Clone, Copy, Debug, PartialEq, Eq, Structural)]
pub struct DirEntry {
    pub id: usize,
}

/// A handle that does not keep its entry alive: it may be turned back
/// into a [`DirEntry`] for as long as the namespace knows the entry.
#[derive(Clone, Copy, Debug, PartialEq, Eq, Structural)]
pub struct WeakDirEntry {
    pub id: usize,
}

/// The key of an entry: the address of its parent, or zero if it has
/// none, and its name.
pub type ReferenceKey = (usize, String);

/// How an entry is reached: through which directory, and under which
/// name.
pub struct Reference {
    pub parent: Option<DirEntry>,
    pub name: String,
}

impl Reference {
    pub fn new(parent: Option<DirEntry>, name: String) -> (r: Reference)
        ensures
            r.parent == parent,
            r.name == name,
    {
        Reference { parent, name }
    }

    /// The reference of the root of a mount: no parent, the empty name.
    pub fn root() -> (r: Reference)
        ensures
            r.parent is None,
            r.name@ == Seq::<char>::empty(),
    {
        Reference { parent: None, name: String::new() }
    }

    /// The address of the parent, or zero, and the name.
    pub open spec fn spec_key(&self) -> (int, Seq<char>) {
        (
            match self.parent {
                Some(p) => p.id + 1,
                None => 0,
            },
            self.name@,
        )
    }

    /// The key of the entry that is reached this way.
    pub fn key(&self) -> (r: ReferenceKey)
        requires
            self.parent matches Some(p) ==> p.id < usize::MAX,
        ensures
            (r.0 as int, r.1@) == self.spec_key(),
    {
        let address: usize = match self.parent {
            Some(p) => p.as_ptr(),
            None => 0,
        };
        (address, self.name.clone())
    }
}

impl WeakDirEntry {
    /// The entry, if the namespace knows it.
    pub fn upgrade<D: DirNodeOps>(&self, vfs: &Vfs<D>) -> (r: Option<DirEntry>)
        ensures
            r == if vfs@.has_entry(DirEntry { id: self.id }) {
                Some(DirEntry { id: self.id })
            } else {
                None
            },
    {
        let e = DirEntry { id: self.id };
        if vfs.contains(e) {
            Some(e)
        } else {
            None
        }
    }
}

/// The string that the bytes spell in UTF-8, if they spell one: what
/// `String::from_utf8` of the standard library returns, the error dropped.
/// The contract says that bytes are accepted exactly if they are valid
/// UTF-8, and that the string holds the characters that the bytes encode.
#[verifier::external_body]
fn string_from_utf8(bytes: Vec<u8>) -> (r: Option<String>)
    ensures
        r is Some <==> valid_utf8(bytes@),
        r matches Some(s) ==> s@ == decode_utf8(bytes@),
{
    String::from_utf8(bytes).ok()
}

/// Whether `r` is the target that the content `bytes` of a symbolic link
/// spells: the string that the bytes encode in UTF-8, or `EINVAL` where
/// they encode none.
pub open spec fn spells(bytes: Seq<u8>, r: VfsResult<String>) -> bool {
    if valid_utf8(bytes) {
        r matches Ok(target) && target@ == decode_utf8(bytes)
    } else {
        r == Err::<String, VfsError>(VfsError::EINVAL)
    }
}

/// The target of a symbolic link whose content is `bytes`: the string
/// that the bytes spell; `EINVAL` if they are not valid UTF-8.
pub fn decode_link(bytes: Vec<u8>) -> (r: VfsResult<String>)
    ensures
        valid_utf8(bytes@) ==> (r matches Ok(target) && target@ == decode_utf8(bytes@)),
        !valid_utf8(bytes@) ==> r is Err && r->Err_0 == VfsError::EINVAL,
{
    match string_from_utf8(bytes) {
        Some(target) => Ok(target),
        None => Err(VfsError::EINVAL),
    }
}

/// Whether `r` is what the backend answers when the node is asked for its
/// inode number.
pub open spec fn answers_inode<D: DirNodeOps>(node: Backing<D>, r: u64) -> bool {
    match node {
        Backing::File(file) => <D::File>::inode.ensures((&file,), r),
        Backing::Dir(dir) => D::inode.ensures((&dir,), r),
    }
}

/// Whether `r` is what the backend answers when the node is asked for its
/// file system.
pub open spec fn answers_filesystem<D: DirNodeOps>(node: Backing<D>, r: &D::Filesystem) -> bool {
    match node {
        Backing::File(file) => <D::File>::filesystem.ensures((&file,), r),
        Backing::Dir(dir) => D::filesystem.ensures((&dir,), r),
    }
}

/// Whether `r` is what the backend answers when the node is asked for its
/// metadata.
pub open spec fn answers_metadata<D: DirNodeOps>(node: Backing<D>, r: VfsResult<Metadata>) -> bool {
    match node {
        Backing::File(file) => <D::File>::metadata.ensures((&file,), r),
        Backing::Dir(dir) => D::metadata.ensures((&dir,), r),
    }
}

/// Whether `r` is what the backend answers when the node is handed the
/// metadata update.
pub open spec fn answers_update<D: DirNodeOps>(
    node: Backing<D>,
    update: MetadataUpdate,
    r: VfsResult<()>,
) -> bool {
    match node {
        Backing::File(file) => <D::File>::update_metadata.ensures((&file, update), r),
        Backing::Dir(dir) => D::update_metadata.ensures((&dir, update), r),
    }
}

/// Whether `r` is what the backend answers when the node is asked for its
/// size.
pub open spec fn answers_len<D: DirNodeOps>(node: Backing<D>, r: VfsResult<u64>) -> bool {
    match node {
        Backing::File(file) => <D::File>::len.ensures((&file,), r),
        Backing::Dir(dir) => D::len.ensures((&dir,), r),
    }
}

/// Whether `r` is what the backend answers when the node is told to write
/// itself through.
pub open spec fn answers_sync<D: DirNodeOps>(
    node: Backing<D>,
    data_only: bool,
    r: VfsResult<()>,
) -> bool {
    match node {
        Backing::File(file) => <D::File>::sync.ensures((&file, data_only), r),
        Backing::Dir(dir) => D::sync.ensures((&dir, data_only), r),
    }
}

/// What becomes of the metadata that the backend reported: the declared
/// type of the entry takes the place of the reported type; a failure
/// stays the failure.
pub open spec fn typed_metadata(reported: VfsResult<Metadata>, node_type: NodeType) -> VfsResult<
    Metadata,
> {
    match reported {
        Ok(metadata) => Ok(Metadata { node_type, ..metadata }),
        Err(e) => Err(e),
    }
}

/// The metadata with the declared type of the entry in place of what the
/// backend reported.
pub fn with_node_type(metadata: Metadata, node_type: NodeType) -> (r: Metadata)
    ensures
        r == (Metadata { node_type, ..metadata }),
{
    let mut out = metadata;
    out.node_type = node_type;
    out
}

impl DirEntry {
    /// The inode number that the backend gives the node.
    pub fn inode<D: DirNodeOps>(&self, vfs: &Vfs<D>) -> (r: u64)
        requires
            vfs.wf(),
            vfs@.has_entry(*self),
        ensures
            answers_inode(vfs@.entry(*self).backing, r),
    {
        match vfs.node(*self) {
            Node::File(file) => file.inner().inode(),
            Node::Dir(dir) => dir.inner().inode(),
        }
    }

    /// The file system that the backend names for the node.
    pub fn filesystem<'a, D: DirNodeOps>(&self, vfs: &'a Vfs<D>) -> (r: &'a D::Filesystem)
        requires
            vfs.wf(),
            vfs@.has_entry(*self),
        ensures
            answers_filesystem(vfs@.entry(*self).backing, r),
    {
        match vfs.node(*self) {
            Node::File(file) => file.inner().filesystem(),
            Node::Dir(dir) => dir.inner().filesystem(),
        }
    }

    /// Hands a metadata update to the backend.
    pub fn update_metadata<D: DirNodeOps>(&self, vfs: &Vfs<D>, update: MetadataUpdate) -> (r:
        VfsResult<()>)
        requires
            vfs.wf(),
            vfs@.has_entry(*self),
        ensures
            answers_update(vfs@.entry(*self).backing, update, r),
    {
        match vfs.node(*self) {
            Node::File(file) => file.inner().update_metadata(update),
            Node::Dir(dir) => dir.inner().update_metadata(update),
        }
    }

    /// The size that the backend gives the node.
    pub fn len<D: DirNodeOps>(&self, vfs: &Vfs<D>) -> (r: VfsResult<u64>)
        requires
            vfs.wf(),
            vfs@.has_entry(*self),
        ensures
            answers_len(vfs@.entry(*self).backing, r),
    {
        match vfs.node(*self) {
            Node::File(file) => file.inner().len(),
            Node::Dir(dir) => dir.inner().len(),
        }
    }

    /// Has the backend write the node through.
    pub fn sync<D: DirNodeOps>(&self, vfs: &Vfs<D>, data_only: bool) -> (r: VfsResult<()>)
        requires
            vfs.wf(),
            vfs@.has_entry(*self),
        ensures
            answers_sync(vfs@.entry(*self).backing, data_only, r),
    {
        match vfs.node(*self) {
            Node::File(file) => file.inner().sync(data_only),
            Node::Dir(dir) => dir.inner().sync(data_only),
        }
    }

    /// Enters a file node, reached as `reference` says.
    pub fn new_file<D: DirNodeOps>(
        vfs: &mut Vfs<D>,
        node: FileNode<D::File>,
        node_type: NodeType,
        reference: Reference,
    ) -> (e: DirEntry)
        requires
            old(vfs).wf(),
            reference.parent matches Some(p) ==> old(vfs)@.is_dir(p),
        ensures
            final(vfs).wf(),
            e.id == old(vfs)@.entries.len(),
            final(vfs)@ == old(vfs)@.push_entry(
                fresh_entry(reference.parent, reference.name@, node_type, Backing::File(node.ops())),
            ),
    {
        vfs.enroll(reference.parent, reference.name, NewNode::File(node, node_type))
    }

    /// Enters a directory node, reached as `reference` says. The node is
    /// made by `node_fn`, which is told the entry that it will belong to.
    pub fn new_dir<D: DirNodeOps, F: FnOnce(WeakDirEntry) -> DirNode<D>>(
        vfs: &mut Vfs<D>,
        node_fn: F,
        reference: Reference,
    ) -> (e: DirEntry)
        requires
            old(vfs).wf(),
            reference.parent matches Some(p) ==> old(vfs)@.is_dir(p),
            node_fn.requires((WeakDirEntry { id: old(vfs)@.entries.len() as usize },)),
        ensures
            final(vfs).wf(),
            e.id == old(vfs)@.entries.len(),
            exists|made: DirNode<D>| #[trigger]
                node_fn.ensures((WeakDirEntry { id: old(vfs)@.entries.len() as usize },), made)
                    && final(vfs)@ == old(vfs)@.push_entry(
                    fresh_entry(
                        reference.parent,
                        reference.name@,
                        NodeType::Directory,
                        Backing::Dir(made.ops()),
                    ),
                ),
    {
        let id: usize = vfs.entry_count();
        let node = node_fn(WeakDirEntry { id });
        let ghost made = node;
        let e = vfs.enroll(reference.parent, reference.name, NewNode::Dir(node));
        assert(node_fn.ensures((WeakDirEntry { id: old(vfs)@.entries.len() as usize },), made));
        e
    }

    /// The metadata that the backend reports, with the declared type of
    /// the entry in place of the type that the backend reported.
    pub fn metadata<D: DirNodeOps>(&self, vfs: &Vfs<D>) -> (r: VfsResult<Metadata>)
        requires
            vfs.wf(),
            vfs@.has_entry(*self),
        ensures
            exists|reported: VfsResult<Metadata>| #[trigger]
                answers_metadata(vfs@.entry(*self).backing, reported) && r == typed_metadata(
                    reported,
                    vfs@.entry(*self).node_type,
                ),
    {
        let reported = match vfs.node(*self) {
            Node::File(file) => file.inner().metadata(),
            Node::Dir(dir) => dir.inner().metadata(),
        };
        assert(answers_metadata(vfs@.entry(*self).backing, reported));
        match reported {
            Ok(metadata) => Ok(with_node_type(metadata, vfs.node_type_of(*self))),
            Err(e) => Err(e),
        }
    }

    /// A handle that does not keep the entry alive.
    pub fn downgrade(&self) -> (r: WeakDirEntry)
        ensures
            r.id == self.id,
    {
        WeakDirEntry { id: self.id }
    }

    /// The key of the entry.
    pub fn key<D: DirNodeOps>(&self, vfs: &Vfs<D>) -> (r: ReferenceKey)
        requires
            vfs.wf(),
            vfs@.has_entry(*self),
        ensures
            (r.0 as int, r.1@) == vfs@.key_of(*self),
    {
        let address: usize = match vfs.parent_of(*self) {
            Some(p) => {
                assert(vfs@.entry_wf(self.id as int));
                p.as_ptr()
            },
            None => 0,
        };
        (address, vfs.name_of(*self).to_owned())
    }

    /// The declared type of the node.
    pub fn node_type<D: DirNodeOps>(&self, vfs: &Vfs<D>) -> (r: NodeType)
        requires
            vfs@.has_entry(*self),
        ensures
            r == vfs@.entry(*self).node_type,
    {
        vfs.node_type_of(*self)
    }

    /// The directory through which the entry was found.
    pub fn parent<D: DirNodeOps>(&self, vfs: &Vfs<D>) -> (r: Option<DirEntry>)
        requires
            vfs@.has_entry(*self),
        ensures
            r == vfs@.entry(*self).parent,
    {
        vfs.parent_of(*self)
    }

    /// The name under which the entry was found.
    pub fn name<'a, D: DirNodeOps>(&self, vfs: &'a Vfs<D>) -> (r: &'a str)
        requires
            vfs@.has_entry(*self),
        ensures
            r@ == vfs@.entry(*self).name,
    {
        vfs.name_of(*self)
    }

    /// Whether the entry is the root of a mount: it has no parent.
    pub fn is_root_of_mount<D: DirNodeOps>(&self, vfs: &Vfs<D>) -> (r: bool)
        requires
            vfs@.has_entry(*self),
        ensures
            r == vfs@.entry(*self).parent is None,
    {
        vfs.parent_of(*self).is_none()
    }

    /// Whether the entry is `other` or lies above `other` on the way to
    /// the root.
    pub fn is_ancestor_of<D: DirNodeOps>(&self, vfs: &Vfs<D>, other: &DirEntry) -> (r: VfsResult<
        bool,
    >)
        requires
            vfs.wf(),
            vfs@.has_entry(*other),
        ensures
            r == Ok::<bool, VfsError>(vfs@.is_ancestor(*self, *other)),
    {
        let mut current = *other;
        loop
            invariant
                vfs.wf(),
                vfs@.has_entry(current),
                vfs@.is_ancestor(*self, *other) == vfs@.is_ancestor(*self, current),
            decreases current.id,
        {
            if current.ptr_eq(self) {
                return Ok(true);
            }
            assert(vfs@.entry_wf(current.id as int));
            match vfs.parent_of(current) {
                Some(parent) => {
                    current = parent;
                },
                None => {
                    return Ok(false);
                },
            }
        }
    }

    /// Appends the names on the way from the entry up to the root of its
    /// mount, the name of the entry first. The root adds none.
    pub(crate) fn collect_absolute_path<D: DirNodeOps>(
        &self,
        vfs: &Vfs<D>,
        components: &mut Vec<String>,
    )
        requires
            vfs.wf(),
            vfs@.has_entry(*self),
        ensures
            names_of(final(components)@) == names_of(old(components)@) + vfs@.entry_names(*self),
    {
        let mut current = *self;
        loop
            invariant
                vfs.wf(),
                vfs@.has_entry(current),
                names_of(components@) + vfs@.entry_names(current) == names_of(old(components)@)
                    + vfs@.entry_names(*self),
            decreases current.id,
        {
            assert(vfs@.entry_wf(current.id as int));
            match vfs.parent_of(current) {
                Some(parent) => {
                    let ghost before = names_of(components@);
                    components.push(vfs.name_of(current).to_owned());
                    assert(names_of(components@) =~= before.push(vfs@.entry(current).name));
                    assert(before.push(vfs@.entry(current).name) + vfs@.entry_names(parent)
                        =~= before + vfs@.entry_names(current));
                    current = parent;
                },
                None => {
                    assert(names_of(components@) + vfs@.entry_names(current) =~= names_of(
                        components@,
                    ));
                    return ;
                },
            }
        }
    }

    /// The absolute path of the entry within its mount.
    pub fn absolute_path<D: DirNodeOps>(&self, vfs: &Vfs<D>) -> (r: VfsResult<String>)
        requires
            vfs.wf(),
            vfs@.has_entry(*self),
        ensures
            r matches Ok(path) && path@ == vfs@.entry_path(*self),
    {
        let mut components: Vec<String> = Vec::new();
        self.collect_absolute_path(vfs, &mut components);
        assert(names_of(components@) =~= vfs@.entry_names(*self));
        Ok(build_absolute_path(&components))
    }

    /// Whether the node is a file node.
    pub fn is_file<D: DirNodeOps>(&self, vfs: &Vfs<D>) -> (r: bool)
        requires
            vfs.wf(),
            vfs@.has_entry(*self),
        ensures
            r == !vfs@.entry(*self).is_dir,
    {
        match vfs.node(*self) {
            Node::File(_) => true,
            Node::Dir(_) => false,
        }
    }

    /// Whether the node is a directory node.
    pub fn is_dir<D: DirNodeOps>(&self, vfs: &Vfs<D>) -> (r: bool)
        requires
            vfs.wf(),
            vfs@.has_entry(*self),
        ensures
            r == vfs@.entry(*self).is_dir,
    {
        match vfs.node(*self) {
            Node::File(_) => false,
            Node::Dir(_) => true,
        }
    }

    /// The file node; `EISDIR` for a directory.
    pub fn as_file<'a, D: DirNodeOps>(&self, vfs: &'a Vfs<D>) -> (r: VfsResult<
        &'a FileNode<D::File>,
    >)
        requires
            vfs.wf(),
            vfs@.has_entry(*self),
        ensures
            !vfs@.entry(*self).is_dir ==> r is Ok,
            vfs@.entry(*self).is_dir ==> r is Err && r->Err_0 == VfsError::EISDIR,
            r matches Ok(file) ==> vfs@.entry(*self).backing == Backing::<D>::File(file.ops()),
    {
        match vfs.node(*self) {
            Node::File(file) => Ok(file),
            Node::Dir(_) => Err(VfsError::EISDIR),
        }
    }

    /// The directory node; `ENOTDIR` for anything else.
    pub fn as_dir<'a, D: DirNodeOps>(&self, vfs: &'a Vfs<D>) -> (r: VfsResult<&'a DirNode<D>>)
        requires
            vfs.wf(),
            vfs@.has_entry(*self),
        ensures
            vfs@.entry(*self).is_dir ==> (r matches Ok(dir) && {
                &&& dir.wf()
                &&& dir.cache_view() == vfs@.entry(*self).cache
                &&& dir.mounted() == vfs@.entry(*self).mounted
                &&& dir.ops() == vfs@.dir_ops(*self)
            }),
            !vfs@.entry(*self).is_dir ==> r is Err && r->Err_0 == VfsError::ENOTDIR,
    {
        match vfs.node(*self) {
            Node::Dir(dir) => Ok(dir),
            Node::File(_) => Err(VfsError::ENOTDIR),
        }
    }

    /// Whether the two handles name the same entry.
    pub fn ptr_eq(&self, other: &DirEntry) -> (r: bool)
        ensures
            r == (*self == *other),
    {
        self.id == other.id
    }

    /// A number that stands for the address of the entry: never zero, and
    /// different for different entries.
    pub fn as_ptr(&self) -> (r: usize)
        requires
            self.id < usize::MAX,
        ensures
            r == self.id + 1,
    {
        self.id + 1
    }

    /// The target of a symbolic link. An entry that is not declared a
    /// symbolic link is refused with `EINVAL`, a directory with `EISDIR`.
    /// Otherwise the backend is asked for the size of the file and then for
    /// its content from the start, into a buffer of that size that holds
    /// zeros; a failure of the backend is the answer, and what was read is
    /// decoded as [`spells`] says.
    pub fn read_link<D: DirNodeOps>(&self, vfs: &Vfs<D>) -> (r: VfsResult<String>)
        requires
            vfs.wf(),
            vfs@.has_entry(*self),
        ensures
            vfs@.entry(*self).node_type != NodeType::Symlink ==> r == Err::<String, VfsError>(
                VfsError::EINVAL,
            ),
            vfs@.entry(*self).node_type == NodeType::Symlink ==> match vfs@.entry(*self).backing {
                Backing::Dir(_) => r == Err::<String, VfsError>(VfsError::EISDIR),
                Backing::File(file) => exists|size: VfsResult<u64>| #[trigger]
                    <D::File>::len.ensures((&file,), size) && match size {
                        Err(e) => r == Err::<String, VfsError>(e),
                        Ok(n) => exists|handed: &mut [u8], read: VfsResult<usize>|
                            handed@ == Seq::new((#[verifier::truncate] (n as usize)) as nat, |i: int| 0u8) && #[trigger]
                            <D::File>::read_at.ensures((&file, handed, 0u64), read)
                                && match read {
                                Err(e) => r == Err::<String, VfsError>(e),
                                Ok(_) => spells(final(handed)@, r),
                            },
                    },
            },
    {
        if self.node_type(vfs) != NodeType::Symlink {
            return Err(VfsError::EINVAL);
        }
        let file = match vfs.node(*self) {
            Node::File(file) => file,
            Node::Dir(_) => {
                return Err(VfsError::EISDIR);
            },
        };
        let ghost backed = vfs@.entry(*self).backing->File_0;
        assert(vfs@.entry(*self).backing == Backing::<D>::File(file.ops()));
        assert(backed == file.ops());
        let size = file.inner().len();
        assert(<D::File>::len.ensures((&backed,), size));
        let len = match size {
            Ok(len) => len,
            Err(e) => {
                return Err(e);
            },
        };
        let count: usize = #[verifier::truncate] (len as usize);
        let mut buf: Vec<u8> = vec![0u8; count];
        let ghost zeros = Seq::new(count as nat, |i: int| 0u8);
        assert(buf@ =~= zeros);
        let read = file.inner().read_at(buf.as_mut_slice(), 0);
        assert(exists|handed: &mut [u8]|
            handed@ == zeros && final(handed)@ == buf@ && #[trigger] <D::File>::read_at.ensures(
                (&backed, handed, 0u64),
                read,
            ));
        if let Err(e) = read {
            return Err(e);
        }
        decode_link(buf)
    }

    /// A device control request: handed to a file, refused by a directory
    /// with `ENOTTY`.
    pub fn ioctl<D: DirNodeOps>(&self, vfs: &Vfs<D>, cmd: u32, arg: usize) -> (r: VfsResult<usize>)
        requires
            vfs.wf(),
            vfs@.has_entry(*self),
        ensures
            match vfs@.entry(*self).backing {
                Backing::File(file) => <D::File>::ioctl.ensures((&file, cmd, arg), r),
                Backing::Dir(_) => r == Err::<usize, VfsError>(VfsError::ENOTTY),
            },
    {
        match vfs.node(*self) {
            Node::File(file) => file.inner().ioctl(cmd, arg),
            Node::Dir(_) => Err(VfsError::ENOTTY),
        }
    }
}

} // verus!
