use crate::dir::OpenOptions;
use crate::entry::{
    answers_filesystem, answers_inode, answers_len, answers_metadata, answers_sync, answers_update, spells,
    typed_metadata, DirEntry,
};
use crate::error::{VfsError, VfsResult};
use crate::fs::{Filesystem, FilesystemOps};
use crate::model::{fresh_entry, MountView};
use crate::dir::ChildProbe;
use crate::ops::{
    Backing, DirEntrySink, DirNode, DirNodeOps, FileNodeOps, NewNode, NodeOps,
};
use crate::path::{build_absolute_path, dot, dotdot, names_of, to_chars};
use crate::steps::{answers_listing, children_of_listing, Looked, Told};
use crate::types::{Metadata, MetadataUpdate, NodePermission, NodeType};
use crate::vfs::Vfs;
use vstd::prelude::*;

verus! {

/// A mount: the handle of one mount of a [`Vfs`].
#[derive(Clone, Copy, Debug, PartialEq, Eq, Structural)]
pub struct Mountpoint {
    pub id: usize,
}

/// A position in the namespace: an entry together with the mount through
/// which it is seen.
#[derive(Clone, Copy, Debug, PartialEq, Eq, Structural)]
pub struct Location {
    pub mountpoint: Mountpoint,
    pub entry: DirEntry,
}

impl Mountpoint {
    /// Enters a mount of `fs` with the device number `device`, placed at
    /// `location_in_parent`, and returns it. The root directory that the
    /// file system hands over is entered as the root of the mount. The
    /// directory at the place is not told: [`Location::mount`] does that.
    ///
    /// The device number must lie above every device number of the
    /// namespace; who draws the numbers of all namespaces from one counter
    /// gives every mount a number of its own.
    pub fn new<FS: FilesystemOps>(
        vfs: &mut Vfs<FS::Dir>,
        fs: &Filesystem<FS>,
        location_in_parent: Option<Location>,
        device: u64,
    ) -> (m: Mountpoint)
        requires
            old(vfs).wf(),
            location_in_parent matches Some(loc) ==> old(vfs)@.has_location(loc),
            old(vfs)@.last_device() < device,
        ensures
            final(vfs).wf(),
            m.id == old(vfs)@.mounts.len(),
            exists|handed: DirNode<FS::Dir>| #[trigger]
                FS::root_dir.ensures((&fs.ops(),), handed) && final(vfs)@ == old(vfs)@.push_entry(
                    fresh_entry(None, seq![], NodeType::Directory, Backing::Dir(handed.ops())),
                ).push_mount(
                    MountView {
                        root: old(vfs)@.next_entry(),
                        location: location_in_parent,
                        device,
                        children: Map::empty(),
                    },
                ),
    {
        let root = fs.root_dir();
        vfs.add_mount(root, location_in_parent, device)
    }

    /// Enters a root mount of the namespace: a mount that is placed
    /// nowhere.
    pub fn new_root<FS: FilesystemOps>(vfs: &mut Vfs<FS::Dir>, fs: &Filesystem<FS>, device: u64) -> (m:
        Mountpoint)
        requires
            old(vfs).wf(),
            old(vfs)@.last_device() < device,
        ensures
            final(vfs).wf(),
            m.id == old(vfs)@.mounts.len(),
            exists|handed: DirNode<FS::Dir>| #[trigger]
                FS::root_dir.ensures((&fs.ops(),), handed) && final(vfs)@ == old(vfs)@.push_entry(
                    fresh_entry(None, seq![], NodeType::Directory, Backing::Dir(handed.ops())),
                ).push_mount(
                    MountView {
                        root: old(vfs)@.next_entry(),
                        location: None,
                        device,
                        children: Map::empty(),
                    },
                ),
    {
        Self::new(vfs, fs, None, device)
    }

    /// The position of the root of the mount.
    pub fn root_location<D: DirNodeOps>(&self, vfs: &Vfs<D>) -> (r: Location)
        requires
            vfs@.has_mount(*self),
        ensures
            r == (Location { mountpoint: *self, entry: vfs@.mount(*self).root }),
    {
        Location::new(*self, vfs.mount_root(*self))
    }

    /// Where the mount is placed.
    pub fn location<D: DirNodeOps>(&self, vfs: &Vfs<D>) -> (r: Option<Location>)
        requires
            vfs@.has_mount(*self),
        ensures
            r == vfs@.mount(*self).location,
    {
        vfs.mount_location(*self)
    }

    /// Whether the mount is a root mount of the namespace.
    pub fn is_root<D: DirNodeOps>(&self, vfs: &Vfs<D>) -> (r: bool)
        requires
            vfs@.has_mount(*self),
        ensures
            r == vfs@.mount(*self).location is None,
    {
        vfs.mount_location(*self).is_none()
    }

    /// The topmost mount of the stack that starts with this one.
    ///
    /// After a first file system was mounted on a directory and a second
    /// one on the same path, the second stands on the root of the first and
    /// hides it: the topmost mount of the first is the second.
    pub(crate) fn effective_mountpoint<D: DirNodeOps>(&self, vfs: &Vfs<D>) -> (r: Mountpoint)
        requires
            vfs.wf(),
            vfs@.has_mount(*self),
        ensures
            r == vfs@.effective(*self),
            vfs@.has_mount(r),
    {
        let mut mountpoint = *self;
        loop
            invariant
                vfs.wf(),
                vfs@.has_mount(mountpoint),
                vfs@.effective(mountpoint) == vfs@.effective(*self),
            decreases vfs@.entries.len() - vfs@.mount(mountpoint).root.id,
        {
            let root = vfs.mount_root(mountpoint);
            assert(vfs@.mount_wf(mountpoint.id as int));
            assert(vfs@.entry_wf(root.id as int));
            let stacked = match root.as_dir(vfs) {
                Ok(node) => node.mountpoint(),
                Err(_) => None,
            };
            match stacked {
                Some(top) => {
                    assert(vfs@.mount_wf(top.id as int));
                    mountpoint = top;
                },
                None => {
                    return mountpoint;
                },
            }
        }
    }

    /// The device number of the mount.
    pub fn device<D: DirNodeOps>(&self, vfs: &Vfs<D>) -> (r: u64)
        requires
            vfs@.has_mount(*self),
        ensures
            r == vfs@.mount(*self).device,
    {
        vfs.mount_device(*self)
    }

    /// The mount that is listed among the children of this one under
    /// `key`.
    pub fn child<D: DirNodeOps>(&self, vfs: &Vfs<D>, key: &(usize, String)) -> (r: Option<
        Mountpoint,
    >)
        requires
            vfs.wf(),
            vfs@.has_mount(*self),
        ensures
            r == if vfs@.mount(*self).children.contains_key((key.0 as int, key.1@)) {
                Some(vfs@.mount(*self).children[(key.0 as int, key.1@)])
            } else {
                None
            },
    {
        vfs.child_of(*self, key.0, key.1.as_str())
    }
}

/// What becomes of the metadata that the backend reported for an entry
/// that is seen through a mount: the declared type of the entry and the
/// device number of the mount take the place of what was reported; a
/// failure stays the failure.
pub open spec fn located_metadata(
    reported: VfsResult<Metadata>,
    node_type: NodeType,
    device: u64,
) -> VfsResult<Metadata> {
    match reported {
        Ok(metadata) => Ok(Metadata { device, node_type, ..metadata }),
        Err(e) => Err(e),
    }
}

/// The metadata with the device of the mount in place of what the entry
/// reported.
pub fn with_device(metadata: Metadata, device: u64) -> (r: Metadata)
    ensures
        r == (Metadata { device, ..metadata }),
{
    let mut out = metadata;
    out.device = device;
    out
}

impl Location {
    pub fn new(mountpoint: Mountpoint, entry: DirEntry) -> (r: Location)
        ensures
            r == (Location { mountpoint, entry }),
    {
        Location { mountpoint, entry }
    }

    /// The position of `entry` in the same mount.
    fn wrap(&self, entry: DirEntry) -> (r: Location)
        ensures
            r == (Location { mountpoint: self.mountpoint, entry }),
    {
        Location::new(self.mountpoint, entry)
    }

    /// The mount through which the entry is seen.
    pub fn mountpoint(&self) -> (r: &Mountpoint)
        ensures
            *r == self.mountpoint,
    {
        &self.mountpoint
    }

    /// The entry.
    pub fn entry(&self) -> (r: &DirEntry)
        ensures
            *r == self.entry,
    {
        &self.entry
    }

    /// The inode number that the backend gives the node.
    pub fn inode<D: DirNodeOps>(&self, vfs: &Vfs<D>) -> (r: u64)
        requires
            vfs.wf(),
            vfs@.has_entry(self.entry),
        ensures
            answers_inode(vfs@.entry(self.entry).backing, r),
    {
        self.entry.inode(vfs)
    }

    /// The file system that the backend names for the node.
    pub fn filesystem<'a, D: DirNodeOps>(&self, vfs: &'a Vfs<D>) -> (r: &'a D::Filesystem)
        requires
            vfs.wf(),
            vfs@.has_entry(self.entry),
        ensures
            answers_filesystem(vfs@.entry(self.entry).backing, r),
    {
        self.entry.filesystem(vfs)
    }

    /// Hands a metadata update to the backend.
    pub fn update_metadata<D: DirNodeOps>(&self, vfs: &Vfs<D>, update: MetadataUpdate) -> (r:
        VfsResult<()>)
        requires
            vfs.wf(),
            vfs@.has_entry(self.entry),
        ensures
            answers_update(vfs@.entry(self.entry).backing, update, r),
    {
        self.entry.update_metadata(vfs, update)
    }

    /// The size that the backend gives the node.
    pub fn len<D: DirNodeOps>(&self, vfs: &Vfs<D>) -> (r: VfsResult<u64>)
        requires
            vfs.wf(),
            vfs@.has_entry(self.entry),
        ensures
            answers_len(vfs@.entry(self.entry).backing, r),
    {
        self.entry.len(vfs)
    }

    /// Has the backend write the node through.
    pub fn sync<D: DirNodeOps>(&self, vfs: &Vfs<D>, data_only: bool) -> (r: VfsResult<()>)
        requires
            vfs.wf(),
            vfs@.has_entry(self.entry),
        ensures
            answers_sync(vfs@.entry(self.entry).backing, data_only, r),
    {
        self.entry.sync(vfs, data_only)
    }

    /// Whether the node is a file node.
    pub fn is_file<D: DirNodeOps>(&self, vfs: &Vfs<D>) -> (r: bool)
        requires
            vfs.wf(),
            vfs@.has_entry(self.entry),
        ensures
            r == !vfs@.entry(self.entry).is_dir,
    {
        self.entry.is_file(vfs)
    }

    /// Whether the node is a directory node.
    pub fn is_dir<D: DirNodeOps>(&self, vfs: &Vfs<D>) -> (r: bool)
        requires
            vfs.wf(),
            vfs@.has_entry(self.entry),
        ensures
            r == vfs@.entry(self.entry).is_dir,
    {
        self.entry.is_dir(vfs)
    }

    /// The declared type of the node.
    pub fn node_type<D: DirNodeOps>(&self, vfs: &Vfs<D>) -> (r: NodeType)
        requires
            vfs@.has_entry(self.entry),
        ensures
            r == vfs@.entry(self.entry).node_type,
    {
        self.entry.node_type(vfs)
    }

    /// Whether the entry is the root of a mount.
    pub fn is_root_of_mount<D: DirNodeOps>(&self, vfs: &Vfs<D>) -> (r: bool)
        requires
            vfs@.has_entry(self.entry),
        ensures
            r == vfs@.entry(self.entry).parent is None,
    {
        self.entry.is_root_of_mount(vfs)
    }

    /// The target of the symbolic link at this position: see
    /// [`DirEntry::read_link`].
    pub fn read_link<D: DirNodeOps>(&self, vfs: &Vfs<D>) -> (r: VfsResult<String>)
        requires
            vfs.wf(),
            vfs@.has_entry(self.entry),
        ensures
            vfs@.entry(self.entry).node_type != NodeType::Symlink ==> r == Err::<String, VfsError>(
                VfsError::EINVAL,
            ),
            vfs@.entry(self.entry).node_type == NodeType::Symlink ==> match vfs@.entry(self.entry).backing {
                Backing::Dir(_) => r == Err::<String, VfsError>(VfsError::EISDIR),
                Backing::File(file) => exists|size: VfsResult<u64>| #[trigger]
                    <D::File>::len.ensures((&file,), size) && match size {
                        Err(e) => r == Err::<String, VfsError>(e),
                        Ok(n) => exists|handed: &mut [u8], read: VfsResult<usize>|
                            handed@ == Seq::new(
                                (#[verifier::truncate] (n as usize)) as nat,
                                |i: int| 0u8,
                            ) && #[trigger] <D::File>::read_at.ensures(
                                (&file, handed, 0u64),
                                read,
                            ) && match read {
                                Err(e) => r == Err::<String, VfsError>(e),
                                Ok(_) => spells(final(handed)@, r),
                            },
                    },
            },
    {
        self.entry.read_link(vfs)
    }

    /// The name of the position as seen from above: at the root of a
    /// mount, the name of the place of the mount; the empty name at the
    /// root of the namespace.
    pub fn name<'a, D: DirNodeOps>(&self, vfs: &'a Vfs<D>) -> (r: &'a str)
        requires
            vfs.wf(),
            vfs@.has_location(*self),
        ensures
            r@ == vfs@.location_name(*self),
    {
        let mut cur = *self;
        loop
            invariant
                vfs.wf(),
                vfs@.has_location(cur),
                vfs@.location_name(cur) == vfs@.location_name(*self),
            decreases cur.mountpoint.id,
        {
            if !cur.is_root_of_mount(vfs) {
                return cur.entry.name(vfs);
            }
            assert(vfs@.mount_wf(cur.mountpoint.id as int));
            match cur.mountpoint.location(vfs) {
                Some(above) => {
                    cur = above;
                },
                None => {
                    proof {
                        reveal_strlit("");
                    }
                    assert(""@ =~= Seq::<char>::empty());
                    return "";
                },
            }
        }
    }

    /// The position above: the parent of the entry in the same mount, or,
    /// at the root of a mount, the position above the place of the mount.
    /// The root of the namespace has none.
    pub fn parent<D: DirNodeOps>(&self, vfs: &Vfs<D>) -> (r: Option<Location>)
        requires
            vfs.wf(),
            vfs@.has_location(*self),
        ensures
            r == vfs@.location_parent(*self),
            r matches Some(above) ==> vfs@.has_location(above) && vfs@.entry(above.entry).is_dir,
    {
        let mut cur = *self;
        loop
            invariant
                vfs.wf(),
                vfs@.has_location(cur),
                vfs@.location_parent(cur) == vfs@.location_parent(*self),
            decreases cur.mountpoint.id,
        {
            assert(vfs@.entry_wf(cur.entry.id as int));
            if let Some(parent) = cur.entry.parent(vfs) {
                return Some(cur.wrap(parent));
            }
            assert(vfs@.mount_wf(cur.mountpoint.id as int));
            match cur.mountpoint.location(vfs) {
                Some(above) => {
                    cur = above;
                },
                None => {
                    return None;
                },
            }
        }
    }

    /// Whether the position is the root of the namespace.
    pub fn is_root<D: DirNodeOps>(&self, vfs: &Vfs<D>) -> (r: bool)
        requires
            vfs@.has_location(*self),
        ensures
            r == (vfs@.mount(self.mountpoint).location is None && vfs@.entry(self.entry).parent
                is None),
    {
        self.mountpoint.is_root(vfs) && self.entry.is_root_of_mount(vfs)
    }

    /// `ENOTDIR` unless the entry is a directory.
    pub fn check_is_dir<D: DirNodeOps>(&self, vfs: &Vfs<D>) -> (r: VfsResult<()>)
        requires
            vfs.wf(),
            vfs@.has_entry(self.entry),
        ensures
            vfs@.entry(self.entry).is_dir ==> r is Ok,
            !vfs@.entry(self.entry).is_dir ==> r == Err::<(), VfsError>(VfsError::ENOTDIR),
    {
        match self.entry.as_dir(vfs) {
            Ok(_) => Ok(()),
            Err(e) => Err(e),
        }
    }

    /// `EISDIR` unless the entry is a file.
    pub fn check_is_file<D: DirNodeOps>(&self, vfs: &Vfs<D>) -> (r: VfsResult<()>)
        requires
            vfs.wf(),
            vfs@.has_entry(self.entry),
        ensures
            !vfs@.entry(self.entry).is_dir ==> r is Ok,
            vfs@.entry(self.entry).is_dir ==> r == Err::<(), VfsError>(VfsError::EISDIR),
    {
        match self.entry.as_file(vfs) {
            Ok(_) => Ok(()),
            Err(e) => Err(e),
        }
    }

    /// The metadata of the entry, with the device number of the mount as
    /// its device.
    pub fn metadata<D: DirNodeOps>(&self, vfs: &Vfs<D>) -> (r: VfsResult<Metadata>)
        requires
            vfs.wf(),
            vfs@.has_location(*self),
        ensures
            exists|reported: VfsResult<Metadata>| #[trigger]
                answers_metadata(vfs@.entry(self.entry).backing, reported) && r == located_metadata(
                    reported,
                    vfs@.entry(self.entry).node_type,
                    vfs@.mount(self.mountpoint).device,
                ),
    {
        let typed = self.entry.metadata(vfs);
        proof {
            let reported = choose|reported: VfsResult<Metadata>| #[trigger]
                answers_metadata(vfs@.entry(self.entry).backing, reported) && typed == typed_metadata(
                    reported,
                    vfs@.entry(self.entry).node_type,
                );
            assert(answers_metadata(vfs@.entry(self.entry).backing, reported));
        }
        match typed {
            Ok(metadata) => Ok(with_device(metadata, self.mountpoint.device(vfs))),
            Err(e) => Err(e),
        }
    }

    /// The absolute path of the position in the namespace.
    pub fn absolute_path<D: DirNodeOps>(&self, vfs: &Vfs<D>) -> (r: VfsResult<String>)
        requires
            vfs.wf(),
            vfs@.has_location(*self),
        ensures
            r matches Ok(path) && path@ == vfs@.location_path(*self),
    {
        let mut components: Vec<String> = Vec::new();
        let mut cur = *self;
        loop
            invariant
                vfs.wf(),
                vfs@.has_location(cur),
                names_of(components@) + vfs@.location_names(cur) == vfs@.location_names(*self),
            decreases cur.mountpoint.id,
        {
            let ghost before = names_of(components@);
            cur.entry.collect_absolute_path(vfs, &mut components);
            assert(vfs@.mount_wf(cur.mountpoint.id as int));
            match cur.mountpoint.location(vfs) {
                Some(above) => {
                    assert((before + vfs@.entry_names(cur.entry)) + vfs@.location_names(above)
                        =~= before + (vfs@.entry_names(cur.entry) + vfs@.location_names(above)));
                    cur = above;
                },
                None => {
                    assert(names_of(components@) =~= vfs@.location_names(*self));
                    return Ok(build_absolute_path(&components));
                },
            }
        }
    }

    /// Whether the two positions are the same: the same entry, seen
    /// through the same mount.
    pub fn ptr_eq(&self, other: &Location) -> (r: bool)
        ensures
            r == (*self == *other),
    {
        self.mountpoint.id == other.mountpoint.id && self.entry.ptr_eq(&other.entry)
    }

    /// Whether a mount is stacked on the entry.
    pub fn is_mountpoint<D: DirNodeOps>(&self, vfs: &Vfs<D>) -> (r: bool)
        requires
            vfs.wf(),
            vfs@.has_entry(self.entry),
        ensures
            r == vfs@.entry(self.entry).mounted is Some,
    {
        assert(vfs@.entry_wf(self.entry.id as int));
        match self.entry.as_dir(vfs) {
            Ok(node) => node.is_mountpoint(),
            Err(_) => false,
        }
    }

    /// Where a walk stands after it has reached this position: at the root
    /// of the topmost mount that is stacked on it, or at the position itself
    /// if nothing is mounted there.
    fn resolve_mountpoint<D: DirNodeOps>(self, vfs: &Vfs<D>) -> (r: Location)
        requires
            vfs.wf(),
            vfs@.has_location(self),
        ensures
            r == vfs@.cross_mounts(self),
            vfs@.has_location(r),
    {
        assert(vfs@.entry_wf(self.entry.id as int));
        let stacked = match self.entry.as_dir(vfs) {
            Ok(node) => node.mountpoint(),
            Err(_) => None,
        };
        match stacked {
            Some(mountpoint) => {
                let top = mountpoint.effective_mountpoint(vfs);
                assert(vfs@.mount_wf(top.id as int));
                Location::new(top, vfs.mount_root(top))
            },
            None => self,
        }
    }

    /// Looks `name` up from this position, without following a symbolic
    /// link: see [`crate::model::VfsView::location_lookup_step`].
    pub fn lookup_no_follow<D: DirNodeOps>(&self, vfs: &mut Vfs<D>, name: &str) -> (r: VfsResult<
        Location,
    >)
        requires
            old(vfs).wf(),
            old(vfs)@.has_location(*self),
        ensures
            final(vfs).wf(),
            exists|told: Told<D>|
                old(vfs)@.location_lookup_told(*self, name@, told) && (final(vfs)@, r)
                    == #[trigger] old(vfs)@.location_lookup_step(*self, name@, told),
            r matches Ok(loc) ==> final(vfs)@.has_location(loc),
            old(vfs)@.entries.len() <= final(vfs)@.entries.len(),
            old(vfs)@.mounts.len() == final(vfs)@.mounts.len(),
    {
        let ghost s0 = vfs@;
        let ghost none = Told::<D> {
            cacheable: false,
            looked: Looked { found: Err(VfsError::ENOENT), cache_it: false },
        };
        let chars = to_chars(name);
        let n: usize = chars.len();
        assert(chars@.subrange(0, n as int) == chars@);
        if n == 1 && chars[0] == '.' {
            assert(name@ =~= dot());
            assert((vfs@, Ok::<Location, VfsError>(*self)) == s0.location_lookup_step(
                *self,
                name@,
                none,
            ));
            return Ok(*self);
        }
        if n == 2 && chars[0] == '.' && chars[1] == '.' {
            assert(name@ =~= dotdot());
            let up = match self.parent(vfs) {
                Some(above) => above,
                None => *self,
            };
            assert((vfs@, Ok::<Location, VfsError>(up)) == s0.location_lookup_step(
                *self,
                name@,
                none,
            ));
            return Ok(up);
        }
        assert(name@ != dot());
        assert(name@ != dotdot());
        if !self.entry.is_dir(vfs) {
            assert((vfs@, Err::<Location, VfsError>(VfsError::ENOTDIR))
                == s0.location_lookup_step(*self, name@, none));
            return Err(VfsError::ENOTDIR);
        }
        let looked = DirNode::lookup(vfs, &self.entry, name);
        let ghost told = choose|told: Told<D>|
            s0.lookup_told(self.entry, name@, told) && (vfs@, looked) == #[trigger] s0.lookup_step(
                self.entry,
                name@,
                told,
            );
        assert(s0.location_lookup_told(*self, name@, told));
        match looked {
            Err(e) => {
                assert((vfs@, Err::<Location, VfsError>(e)) == s0.location_lookup_step(
                    *self,
                    name@,
                    told,
                ));
                Err(e)
            },
            Ok(entry) => {
                proof {
                    if s0.entry(self.entry).cache.contains_key(name@) {
                        s0.lemma_child_under(self.entry, name@);
                    }
                }
                let loc = self.wrap(entry).resolve_mountpoint(vfs);
                assert((vfs@, Ok::<Location, VfsError>(loc)) == s0.location_lookup_step(
                    *self,
                    name@,
                    told,
                ));
                Ok(loc)
            },
        }
    }

    /// Creates a node under `name` in the directory at this position: see
    /// [`crate::model::VfsView::location_create_step`].
    pub fn create<D: DirNodeOps>(
        &self,
        vfs: &mut Vfs<D>,
        name: &str,
        node_type: NodeType,
        permission: NodePermission,
    ) -> (r: VfsResult<Location>)
        requires
            old(vfs).wf(),
            old(vfs)@.has_location(*self),
        ensures
            final(vfs).wf(),
            exists|made: VfsResult<NewNode<D>>|
                (old(vfs)@.entry(self.entry).is_dir ==> old(vfs)@.create_told(
                    self.entry,
                    name@,
                    node_type,
                    permission,
                    made,
                )) && (final(vfs)@, r) == #[trigger] old(vfs)@.location_create_step(
                    *self,
                    name@,
                    made,
                ),
            r is Err ==> final(vfs)@ == old(vfs)@,
    {
        let ghost s0 = vfs@;
        if !self.entry.is_dir(vfs) {
            let ghost unmade: VfsResult<NewNode<D>> = Err(VfsError::ENOENT);
            assert((vfs@, Err::<Location, VfsError>(VfsError::ENOTDIR))
                == s0.location_create_step(*self, name@, unmade));
            return Err(VfsError::ENOTDIR);
        }
        let made = DirNode::create(vfs, &self.entry, name, node_type, permission);
        let ghost answer = choose|answer: VfsResult<NewNode<D>>|
            s0.create_told(self.entry, name@, node_type, permission, answer) && (vfs@, made)
                == #[trigger] s0.create_step(self.entry, name@, answer);
        let r = match made {
            Ok(entry) => Ok(self.wrap(entry)),
            Err(e) => Err(e),
        };
        assert((vfs@, r) == s0.location_create_step(*self, name@, answer));
        r
    }

    /// Makes `name` in the directory at this position one more name of
    /// the node at `node`: see
    /// [`crate::model::VfsView::location_link_step`].
    pub fn link<D: DirNodeOps>(&self, vfs: &mut Vfs<D>, name: &str, node: &Location) -> (r:
        VfsResult<Location>)
        requires
            old(vfs).wf(),
            old(vfs)@.has_location(*self),
            old(vfs)@.has_location(*node),
        ensures
            final(vfs).wf(),
            exists|made: VfsResult<NewNode<D>>|
                ((self.mountpoint == node.mountpoint && old(vfs)@.entry(self.entry).is_dir)
                    ==> old(vfs)@.link_told(self.entry, name@, node.entry, made)) && (final(vfs)@, r)
                    == #[trigger] old(vfs)@.location_link_step(*self, name@, *node, made),
            r is Err ==> final(vfs)@ == old(vfs)@,
    {
        let ghost s0 = vfs@;
        let ghost unmade: VfsResult<NewNode<D>> = Err(VfsError::ENOENT);
        if self.mountpoint.id != node.mountpoint.id {
            assert((vfs@, Err::<Location, VfsError>(VfsError::EXDEV)) == s0.location_link_step(
                *self,
                name@,
                *node,
                unmade,
            ));
            return Err(VfsError::EXDEV);
        }
        if !self.entry.is_dir(vfs) {
            assert((vfs@, Err::<Location, VfsError>(VfsError::ENOTDIR)) == s0.location_link_step(
                *self,
                name@,
                *node,
                unmade,
            ));
            return Err(VfsError::ENOTDIR);
        }
        let made = DirNode::link(vfs, &self.entry, name, &node.entry);
        let ghost answer = choose|answer: VfsResult<NewNode<D>>|
            s0.link_told(self.entry, name@, node.entry, answer) && (vfs@, made)
                == #[trigger] s0.create_step(self.entry, name@, answer);
        let r = match made {
            Ok(entry) => Ok(self.wrap(entry)),
            Err(e) => Err(e),
        };
        assert((vfs@, r) == s0.location_link_step(*self, name@, *node, answer));
        r
    }

    /// Renames `src_name` in the directory at this position to `dst_name`
    /// in the directory at `dst_dir`: see
    /// [`crate::model::VfsView::location_rename_step`].
    pub fn rename<D: DirNodeOps>(
        &self,
        vfs: &mut Vfs<D>,
        src_name: &str,
        dst_dir: &Location,
        dst_name: &str,
    ) -> (r: VfsResult<()>)
        requires
            old(vfs).wf(),
            old(vfs)@.has_location(*self),
            old(vfs)@.has_location(*dst_dir),
        ensures
            final(vfs).wf(),
            exists|
                src_looked: Looked<D>,
                dst_looked: Looked<D>,
                dst_children: VfsResult<bool>,
                done: VfsResult<()>,
            |
                (old(vfs)@.rename_reaches(*self, *dst_dir) ==> old(vfs)@.rename_told(
                    self.entry,
                    src_name@,
                    dst_dir.entry,
                    dst_name@,
                    true,
                    src_looked,
                    dst_looked,
                    dst_children,
                    done,
                ) && (old(vfs)@.rename_lists(
                    self.entry,
                    src_name@,
                    dst_dir.entry,
                    dst_name@,
                    true,
                    src_looked,
                    dst_looked,
                ) matches Some(ops) ==> exists|handed: &mut ChildProbe, listed: VfsResult<usize>| #[trigger]
                    answers_listing(ops, handed, listed) && dst_children == children_of_listing(
                        listed,
                        final(handed).seen(),
                    ))) && (final(vfs)@, r) == #[trigger] old(vfs)@.location_rename_step(
                    *self,
                    src_name@,
                    *dst_dir,
                    dst_name@,
                    src_looked,
                    dst_looked,
                    dst_children,
                    done,
                ),
    {
        let ghost s0 = vfs@;
        let ghost none = Looked::<D> { found: Err(VfsError::ENOENT), cache_it: false };
        let ghost idle: VfsResult<bool> = Ok(false);
        let refused: Option<VfsError> = if self.mountpoint.id != dst_dir.mountpoint.id {
            Some(VfsError::EXDEV)
        } else if !self.entry.is_dir(vfs) || !dst_dir.entry.is_dir(vfs) {
            Some(VfsError::ENOTDIR)
        } else {
            None
        };
        if let Some(e) = refused {
            assert((vfs@, Err::<(), VfsError>(e)) == s0.location_rename_step(
                *self,
                src_name@,
                *dst_dir,
                dst_name@,
                none,
                none,
                idle,
                Ok(()),
            ));
            return Err(e);
        }
        let r = DirNode::rename_guarded(vfs, &self.entry, src_name, &dst_dir.entry, dst_name, true);
        proof {
            let (a, b, c, d) = choose|
                a: Looked<D>,
                b: Looked<D>,
                c: VfsResult<bool>,
                d: VfsResult<()>,
            |
                s0.rename_told(self.entry, src_name@, dst_dir.entry, dst_name@, true, a, b, c, d) && (
                s0.rename_lists(self.entry, src_name@, dst_dir.entry, dst_name@, true, a, b) matches Some(
                    ops,
                ) ==> exists|handed: &mut ChildProbe, listed: VfsResult<usize>| #[trigger]
                    answers_listing(ops, handed, listed) && c == children_of_listing(
                        listed,
                        final(handed).seen(),
                    )) && (vfs@, r) == #[trigger] s0.rename_step(
                    self.entry,
                    src_name@,
                    dst_dir.entry,
                    dst_name@,
                    true,
                    a,
                    b,
                    c,
                    d,
                );
            assert((vfs@, r) == s0.location_rename_step(
                *self,
                src_name@,
                *dst_dir,
                dst_name@,
                a,
                b,
                c,
                d,
            ));
        }
        r
    }

    /// Removes `name` from the directory at this position: see
    /// [`crate::model::VfsView::location_unlink_step`].
    pub fn unlink<D: DirNodeOps>(&self, vfs: &mut Vfs<D>, name: &str, is_dir: bool) -> (r:
        VfsResult<()>)
        requires
            old(vfs).wf(),
            old(vfs)@.has_location(*self),
        ensures
            final(vfs).wf(),
            exists|looked: Looked<D>, done: VfsResult<()>|
                (old(vfs)@.entry(self.entry).is_dir ==> old(vfs)@.unlink_told(
                    self.entry,
                    name@,
                    is_dir,
                    looked,
                    done,
                )) && (final(vfs)@, r) == #[trigger] old(vfs)@.location_unlink_step(
                    *self,
                    name@,
                    is_dir,
                    looked,
                    done,
                ),
    {
        let ghost s0 = vfs@;
        if !self.entry.is_dir(vfs) {
            let ghost none = Looked::<D> { found: Err(VfsError::ENOENT), cache_it: false };
            assert((vfs@, Err::<(), VfsError>(VfsError::ENOTDIR)) == s0.location_unlink_step(
                *self,
                name@,
                is_dir,
                none,
                Ok(()),
            ));
            return Err(VfsError::ENOTDIR);
        }
        let r = DirNode::unlink(vfs, &self.entry, name, is_dir);
        proof {
            let (a, b) = choose|a: Looked<D>, b: VfsResult<()>|
                s0.unlink_told(self.entry, name@, is_dir, a, b) && (vfs@, r)
                    == #[trigger] s0.unlink_step(self.entry, name@, is_dir, a, b);
            assert((vfs@, r) == s0.location_unlink_step(*self, name@, is_dir, a, b));
        }
        r
    }

    /// Opens `name` in the directory at this position, creating a regular
    /// file if the options say so: see
    /// [`crate::model::VfsView::location_open_step`].
    pub fn open_file<D: DirNodeOps>(&self, vfs: &mut Vfs<D>, name: &str, options: &OpenOptions) -> (r:
        VfsResult<Location>)
        requires
            old(vfs).wf(),
            old(vfs)@.has_location(*self),
        ensures
            final(vfs).wf(),
            exists|looked: Looked<D>, made: VfsResult<NewNode<D>>, owned: VfsResult<()>|
                (old(vfs)@.entry(self.entry).is_dir ==> old(vfs)@.open_file_told(
                    self.entry,
                    name@,
                    options.create,
                    options.permission,
                    options.user,
                    looked,
                    made,
                    owned,
                )) && (final(vfs)@, r) == #[trigger] old(vfs)@.location_open_step(
                    *self,
                    name@,
                    options.create,
                    options.create_new,
                    options.user is Some,
                    looked,
                    made,
                    owned,
                ),
            r matches Ok(loc) ==> final(vfs)@.has_location(loc),
    {
        let ghost s0 = vfs@;
        if !self.entry.is_dir(vfs) {
            let ghost none = Looked::<D> { found: Err(VfsError::ENOENT), cache_it: false };
            let ghost unmade: VfsResult<NewNode<D>> = Err(VfsError::ENOENT);
            assert((vfs@, Err::<Location, VfsError>(VfsError::ENOTDIR)) == s0.location_open_step(
                *self,
                name@,
                options.create,
                options.create_new,
                options.user is Some,
                none,
                unmade,
                Ok(()),
            ));
            return Err(VfsError::ENOTDIR);
        }
        let opened = DirNode::open_file(vfs, &self.entry, name, options);
        let ghost (a, b, c) = choose|a: Looked<D>, b: VfsResult<NewNode<D>>, c: VfsResult<()>|
            s0.open_file_told(
                self.entry,
                name@,
                options.create,
                options.permission,
                options.user,
                a,
                b,
                c,
            ) && (vfs@, opened) == #[trigger] s0.open_file_step(
                self.entry,
                name@,
                options.create,
                options.create_new,
                options.user is Some,
                a,
                b,
                c,
            );
        let r = match opened {
            Ok(entry) => {
                proof {
                    if s0.entry(self.entry).cache.contains_key(name@) {
                        s0.lemma_child_under(self.entry, name@);
                    }
                }
                Ok(self.wrap(entry).resolve_mountpoint(vfs))
            },
            Err(e) => Err(e),
        };
        assert((vfs@, r) == s0.location_open_step(
            *self,
            name@,
            options.create,
            options.create_new,
            options.user is Some,
            a,
            b,
            c,
        ));
        r
    }

    /// Hands the entries of the directory at this position from `offset`
    /// on to `sink`. A position that is no directory is refused with
    /// `ENOTDIR`, and the sink stays as it is; otherwise the result, and
    /// what becomes of the sink, are what the backend makes of this offset
    /// and this sink.
    pub fn read_dir<D: DirNodeOps, S: DirEntrySink>(
        &self,
        vfs: &Vfs<D>,
        offset: u64,
        sink: &mut S,
    ) -> (r: VfsResult<usize>)
        requires
            vfs.wf(),
            vfs@.has_entry(self.entry),
        ensures
            !vfs@.entry(self.entry).is_dir ==> r == Err::<usize, VfsError>(VfsError::ENOTDIR)
                && *final(sink) == *old(sink),
            vfs@.entry(self.entry).is_dir ==> exists|handed: &mut S|
                *handed == *old(sink) && *final(handed) == *final(sink) && #[trigger] D::read_dir::<
                    S,
                >.ensures((&vfs@.dir_ops(self.entry), offset, handed), r),
    {
        match self.entry.as_dir(vfs) {
            Ok(node) => node.read_dir(offset, sink),
            Err(e) => Err(e),
        }
    }

    /// Mounts `fs` on the directory at this position under the device
    /// number `device`, and returns the mount.
    ///
    /// A position that is no directory is refused with `ENOTDIR`, one on
    /// which a mount stands already with `EBUSY`. Otherwise the file system
    /// is asked for its root directory, and the state is what
    /// [`crate::model::VfsView::mounted_at`] says. The device number must
    /// lie above every device number of the namespace.
    pub fn mount<FS: FilesystemOps>(
        &self,
        vfs: &mut Vfs<FS::Dir>,
        fs: &Filesystem<FS>,
        device: u64,
    ) -> (r: VfsResult<Mountpoint>)
        requires
            old(vfs).wf(),
            old(vfs)@.has_location(*self),
            old(vfs)@.last_device() < device,
        ensures
            final(vfs).wf(),
            !old(vfs)@.entry(self.entry).is_dir ==> r == Err::<Mountpoint, VfsError>(
                VfsError::ENOTDIR,
            ) && final(vfs)@ == old(vfs)@,
            old(vfs)@.entry(self.entry).is_dir && old(vfs)@.entry(self.entry).mounted is Some ==> r
                == Err::<Mountpoint, VfsError>(VfsError::EBUSY) && final(vfs)@ == old(vfs)@,
            old(vfs)@.entry(self.entry).is_dir && old(vfs)@.entry(self.entry).mounted is None ==> r
                == Ok::<Mountpoint, VfsError>(Mountpoint { id: old(vfs)@.mounts.len() as usize })
                && exists|handed: DirNode<FS::Dir>| #[trigger]
                FS::root_dir.ensures((&fs.ops(),), handed) && final(vfs)@ == old(vfs)@.mounted_at(
                    *self,
                    handed.ops(),
                    device,
                ),
    {
        let ghost s0 = vfs@;
        let occupied = match self.entry.as_dir(vfs) {
            Ok(node) => node.is_mountpoint(),
            Err(e) => {
                return Err(e);
            },
        };
        if occupied {
            return Err(VfsError::EBUSY);
        }
        let key = self.entry.key(vfs);
        let result = Mountpoint::new(vfs, fs, Some(*self), device);
        let ghost handed = choose|handed: DirNode<FS::Dir>| #[trigger]
            FS::root_dir.ensures((&fs.ops(),), handed) && vfs@ == s0.push_entry(
                fresh_entry(None, seq![], NodeType::Directory, Backing::Dir(handed.ops())),
            ).push_mount(
                MountView {
                    root: s0.next_entry(),
                    location: Some(*self),
                    device,
                    children: Map::empty(),
                },
            );
        vfs.set_mounted(self.entry, Some(result));
        vfs.register_child(self.mountpoint, key.0, key.1, result);
        assert(vfs@ == s0.mounted_at(*self, handed.ops(), device));
        Ok(result)
    }

    /// Takes the mount off whose root this position is: see
    /// [`crate::model::VfsView::unmount_step`].
    pub fn unmount<D: DirNodeOps>(&self, vfs: &mut Vfs<D>) -> (r: VfsResult<()>)
        requires
            old(vfs).wf(),
            old(vfs)@.has_location(*self),
            old(vfs)@.entry(self.entry).parent is None && old(vfs)@.mount(
                self.mountpoint,
            ).location is Some ==> old(vfs)@.mount(self.mountpoint).root == self.entry,
        ensures
            final(vfs).wf(),
            (final(vfs)@, r) == old(vfs)@.unmount_step(*self),
    {
        if !self.is_root_of_mount(vfs) {
            return Err(VfsError::EINVAL);
        }
        let place = match self.mountpoint.location(vfs) {
            Some(place) => place,
            None => {
                return Err(VfsError::EINVAL);
            },
        };
        assert(vfs@.mount_wf(self.mountpoint.id as int));
        DirNode::forget(vfs, &self.entry);
        if !place.entry.is_dir(vfs) {
            return Err(VfsError::ENOTDIR);
        }
        vfs.set_mounted(place.entry, None);
        Ok(())
    }
}

} // verus!
