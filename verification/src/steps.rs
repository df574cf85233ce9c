use crate::dir::ChildProbe;
use crate::entry::{answers_update, DirEntry};
use crate::error::{VfsError, VfsResult};
use crate::model::{fresh_entry, MountView, VfsView};
use crate::mount::{Location, Mountpoint};
use crate::ops::{Backing, DirNodeOps, NewNode, Node};
use crate::path::{dot, dotdot, valid_entry_name};
use crate::types::{MetadataUpdate, NodePermission, NodeType};
use vstd::prelude::*;

verus! {

/// What the backend answers to a lookup that found nothing in the cache:
/// what it found under the name, and, asked once it has found something,
/// whether the directory is cacheable.
pub struct Looked<D: DirNodeOps> {
    pub found: VfsResult<NewNode<D>>,
    pub cache_it: bool,
}

/// What the backend answers to a lookup: first whether the directory is
/// cacheable, then what [`Looked`] holds.
pub struct Told<D: DirNodeOps> {
    pub cacheable: bool,
    pub looked: Looked<D>,
}

/// The entry of a result, seen through the mount `m`.
pub open spec fn at_mount(m: Mountpoint, r: Result<DirEntry, VfsError>) -> Result<
    Location,
    VfsError,
> {
    match r {
        Ok(entry) => Ok(Location { mountpoint: m, entry }),
        Err(e) => Err(e),
    }
}

/// Whether `cacheable` is what the directory answers when asked whether it
/// is cacheable.
pub open spec fn answers_cacheable<D: DirNodeOps>(ops: D, cacheable: bool) -> bool {
    D::is_cacheable.ensures((&ops,), cacheable)
}

/// Whether `found` is what the directory answers to a lookup of `name`.
pub open spec fn answers_lookup<D: DirNodeOps>(
    ops: D,
    name: Seq<char>,
    found: VfsResult<NewNode<D>>,
) -> bool {
    exists|asked: &str| asked@ == name && #[trigger] D::lookup.ensures((&ops, asked), found)
}

/// Whether `made` is what the directory answers when told to create a
/// node of this type and permission under `name`.
pub open spec fn answers_create<D: DirNodeOps>(
    ops: D,
    name: Seq<char>,
    node_type: NodeType,
    permission: NodePermission,
    made: VfsResult<NewNode<D>>,
) -> bool {
    exists|asked: &str|
        asked@ == name && #[trigger] D::create.ensures((&ops, asked, node_type, permission), made)
}

/// Whether `made` is what the directory answers when told to make `name`
/// one more name of a node that stands for `target`.
pub open spec fn answers_link<D: DirNodeOps>(
    ops: D,
    name: Seq<char>,
    target: Backing<D>,
    made: VfsResult<NewNode<D>>,
) -> bool {
    exists|asked: &str, node: Node<D>|
        asked@ == name && node.backing() == target && #[trigger] D::link.ensures(
            (&ops, asked, &node),
            made,
        )
}

/// Whether `done` is what the directory answers when told to remove
/// `name`.
pub open spec fn answers_unlink<D: DirNodeOps>(ops: D, name: Seq<char>, done: VfsResult<()>) -> bool {
    exists|asked: &str| asked@ == name && #[trigger] D::unlink.ensures((&ops, asked), done)
}

/// Whether `done` is what the directory answers when told to move its
/// `src_name` to `dst_name` of the directory `dst`.
pub open spec fn answers_rename<D: DirNodeOps>(
    ops: D,
    src_name: Seq<char>,
    dst: D,
    dst_name: Seq<char>,
    done: VfsResult<()>,
) -> bool {
    exists|from: &str, to: &str|
        from@ == src_name && to@ == dst_name && #[trigger] D::rename.ensures(
            (&ops, from, &dst, to),
            done,
        )
}

/// Whether `listed` is what the directory answers when told to list itself
/// from the start to the probe `handed`, which has seen nothing.
pub open spec fn answers_listing<D: DirNodeOps>(
    ops: D,
    handed: &mut ChildProbe,
    listed: VfsResult<usize>,
) -> bool {
    !handed.seen() && D::read_dir::<ChildProbe>.ensures((&ops, 0u64, handed), listed)
}

/// Whether a directory has children, as a listing to a probe tells: the
/// failure of the listing, or whether the probe has seen a child.
pub open spec fn children_of_listing(listed: VfsResult<usize>, seen: bool) -> VfsResult<bool> {
    match listed {
        Ok(_) => Ok(seen),
        Err(e) => Err(e),
    }
}

/// The update that tells a node its owner and nothing else.
pub open spec fn owner_update(user: Option<(u32, u32)>) -> MetadataUpdate {
    MetadataUpdate { mode: None, owner: user, atime: None, mtime: None }
}

/// Whether what stands at the destination of a renaming may be replaced.
/// A directory replaces a directory only if that one is empty, which the
/// backend is asked (`dst_children`); anything else does not replace what
/// is declared a directory (`EISDIR`).
pub open spec fn rename_verdict(
    src_type: NodeType,
    dst_is_dir: bool,
    dst_type: NodeType,
    dst_children: Result<bool, VfsError>,
) -> Result<(), VfsError> {
    if src_type == NodeType::Directory {
        if dst_is_dir {
            match dst_children {
                Err(e) => Err(e),
                Ok(has_children) => if has_children {
                    Err(VfsError::ENOTEMPTY)
                } else {
                    Ok(())
                },
            }
        } else {
            Ok(())
        }
    } else if dst_type == NodeType::Directory {
        Err(VfsError::EISDIR)
    } else {
        Ok(())
    }
}

/// The transitions of the namespace. For each operation, a function with
/// a name that ends in `step` says what the operation makes of a state,
/// given what the backend answered; the function with the same name that
/// ends in `told` says which of the answers the backend was asked for, and
/// with what. An answer that was not asked for plays no part.
impl<D: DirNodeOps> VfsView<D> {
    /// The entry that is entered next.
    pub open spec fn next_entry(self) -> DirEntry {
        DirEntry { id: self.entries.len() as usize }
    }

    /// The state after the node `node`, found in `dir` under `name`, was
    /// entered.
    pub open spec fn entered(self, dir: DirEntry, name: Seq<char>, node: NewNode<D>) -> VfsView<D> {
        self.push_entry(fresh_entry(Some(dir), name, node.node_type(), node.backing()))
    }

    /// A lookup that reads the cache first. A cached entry is the answer.
    /// Otherwise the backend is asked; what it finds is entered, and cached
    /// if the directory then says that it is cacheable.
    pub open spec fn lookup_locked_step(self, dir: DirEntry, name: Seq<char>, looked: Looked<D>) -> (
        VfsView<D>,
        Result<DirEntry, VfsError>,
    ) {
        if self.entry(dir).cache.contains_key(name) {
            (self, Ok(self.entry(dir).cache[name]))
        } else {
            match looked.found {
                Err(e) => (self, Err(e)),
                Ok(node) => (
                    if looked.cache_it {
                        self.entered(dir, name, node).cache_insert(dir, name, self.next_entry())
                    } else {
                        self.entered(dir, name, node)
                    },
                    Ok(self.next_entry()),
                ),
            }
        }
    }

    /// What the backend is asked by [`Self::lookup_locked_step`]: where the
    /// cache holds nothing under the name, the directory is asked to look
    /// the name up, and, if it finds something, whether it is cacheable.
    pub open spec fn lookup_locked_told(self, dir: DirEntry, name: Seq<char>, looked: Looked<D>) -> bool {
        !self.entry(dir).cache.contains_key(name) ==> {
            &&& answers_lookup(self.dir_ops(dir), name, looked.found)
            &&& looked.found is Ok ==> answers_cacheable(self.dir_ops(dir), looked.cache_it)
        }
    }

    /// A lookup. The directory is asked whether it is cacheable. If so,
    /// the lookup goes by the cache first; if not, the backend is asked, and
    /// what it finds is entered and not cached.
    pub open spec fn lookup_step(self, dir: DirEntry, name: Seq<char>, told: Told<D>) -> (
        VfsView<D>,
        Result<DirEntry, VfsError>,
    ) {
        if told.cacheable {
            self.lookup_locked_step(dir, name, told.looked)
        } else {
            match told.looked.found {
                Err(e) => (self, Err(e)),
                Ok(node) => (self.entered(dir, name, node), Ok(self.next_entry())),
            }
        }
    }

    /// What the backend is asked by [`Self::lookup_step`].
    pub open spec fn lookup_told(self, dir: DirEntry, name: Seq<char>, told: Told<D>) -> bool {
        &&& answers_cacheable(self.dir_ops(dir), told.cacheable)
        &&& if told.cacheable {
            self.lookup_locked_told(dir, name, told.looked)
        } else {
            answers_lookup(self.dir_ops(dir), name, told.looked.found)
        }
    }

    /// What becomes of a node that the backend made in `dir` under `name`:
    /// it is entered and cached, whether or not the directory is cacheable.
    /// A failure of the backend changes nothing.
    pub open spec fn create_locked_step(
        self,
        dir: DirEntry,
        name: Seq<char>,
        made: VfsResult<NewNode<D>>,
    ) -> (VfsView<D>, Result<DirEntry, VfsError>) {
        match made {
            Err(e) => (self, Err(e)),
            Ok(node) => (
                self.entered(dir, name, node).cache_insert(dir, name, self.next_entry()),
                Ok(self.next_entry()),
            ),
        }
    }

    /// Creating or linking a node under `name`: a name that is no valid
    /// entry name is refused with `EINVAL` before the backend is asked.
    pub open spec fn create_step(self, dir: DirEntry, name: Seq<char>, made: VfsResult<NewNode<D>>)
        -> (VfsView<D>, Result<DirEntry, VfsError>) {
        if !valid_entry_name(name) {
            (self, Err(VfsError::EINVAL))
        } else {
            self.create_locked_step(dir, name, made)
        }
    }

    /// What the backend is asked when a node is created: for a valid name,
    /// to create a node of this type and permission under the name.
    pub open spec fn create_told(
        self,
        dir: DirEntry,
        name: Seq<char>,
        node_type: NodeType,
        permission: NodePermission,
        made: VfsResult<NewNode<D>>,
    ) -> bool {
        valid_entry_name(name) ==> answers_create(
            self.dir_ops(dir),
            name,
            node_type,
            permission,
            made,
        )
    }

    /// What the backend is asked when a node is linked: for a valid name,
    /// to make the name one more name of the node of `target`.
    pub open spec fn link_told(
        self,
        dir: DirEntry,
        name: Seq<char>,
        target: DirEntry,
        made: VfsResult<NewNode<D>>,
    ) -> bool {
        valid_entry_name(name) ==> answers_link(
            self.dir_ops(dir),
            name,
            self.entry(target).backing,
            made,
        )
    }

    /// Removing `name` from `dir`. The name must be valid (`EINVAL`). The
    /// entry is looked up as [`Self::lookup_locked_step`] says; a directory
    /// where none is asked for is refused with `EISDIR`, anything else where
    /// a directory is asked for with `ENOTDIR`. Then the backend removes the
    /// name; if it does, the entry leaves the cache, together with the
    /// caches below it.
    pub open spec fn unlink_step(
        self,
        dir: DirEntry,
        name: Seq<char>,
        is_dir: bool,
        looked: Looked<D>,
        done: VfsResult<()>,
    ) -> (VfsView<D>, Result<(), VfsError>) {
        if !valid_entry_name(name) {
            (self, Err(VfsError::EINVAL))
        } else {
            let (mid, found) = self.lookup_locked_step(dir, name, looked);
            match found {
                Err(e) => (mid, Err(e)),
                Ok(entry) => if mid.entry(entry).is_dir && !is_dir {
                    (mid, Err(VfsError::EISDIR))
                } else if !mid.entry(entry).is_dir && is_dir {
                    (mid, Err(VfsError::ENOTDIR))
                } else {
                    (
                        if done is Ok {
                            mid.forget_entry(dir, name)
                        } else {
                            mid
                        },
                        done,
                    )
                },
            }
        }
    }

    /// What the backend is asked by [`Self::unlink_step`]: for a valid
    /// name, the lookup; and where an entry is found that is what the caller
    /// takes it for, to remove the name.
    pub open spec fn unlink_told(
        self,
        dir: DirEntry,
        name: Seq<char>,
        is_dir: bool,
        looked: Looked<D>,
        done: VfsResult<()>,
    ) -> bool {
        valid_entry_name(name) ==> {
            let (mid, found) = self.lookup_locked_step(dir, name, looked);
            &&& self.lookup_locked_told(dir, name, looked)
            &&& (found is Ok && mid.entry(found->Ok_0).is_dir == is_dir) ==> answers_unlink(
                self.dir_ops(dir),
                name,
                done,
            )
        }
    }

    /// Renaming `src_name` of `src_dir` to `dst_name` of `dst_dir`.
    ///
    /// Both names must be valid (`EINVAL`). The source is looked up as
    /// [`Self::lookup_locked_step`] says, and its failure is the failure of
    /// the renaming. Where `guard` is set, a source that is a directory and
    /// is the destination directory or lies above it is refused with
    /// `EINVAL`. Then the destination is looked up; that it is not found is
    /// no failure. What is found there must pass [`rename_verdict`]. Then the
    /// backend renames; if it does, both names leave the caches, together
    /// with the caches below them.
    pub open spec fn rename_step(
        self,
        src_dir: DirEntry,
        src_name: Seq<char>,
        dst_dir: DirEntry,
        dst_name: Seq<char>,
        guard: bool,
        src_looked: Looked<D>,
        dst_looked: Looked<D>,
        dst_children: Result<bool, VfsError>,
        done: VfsResult<()>,
    ) -> (VfsView<D>, Result<(), VfsError>) {
        if !valid_entry_name(src_name) || !valid_entry_name(dst_name) {
            (self, Err(VfsError::EINVAL))
        } else {
            let (s1, src) = self.lookup_locked_step(src_dir, src_name, src_looked);
            match src {
                Err(e) => (s1, Err(e)),
                Ok(src) => if guard && s1.entry(src).is_dir && s1.is_ancestor(src, dst_dir) {
                    (s1, Err(VfsError::EINVAL))
                } else {
                    let (s2, dst) = s1.lookup_locked_step(dst_dir, dst_name, dst_looked);
                    let verdict = match dst {
                        Err(_) => Ok(()),
                        Ok(dst) => rename_verdict(
                            s2.entry(src).node_type,
                            s2.entry(dst).is_dir,
                            s2.entry(dst).node_type,
                            dst_children,
                        ),
                    };
                    match verdict {
                        Err(e) => (s2, Err(e)),
                        Ok(_) => (
                            if done is Ok {
                                s2.forget_entry(src_dir, src_name).forget_entry(dst_dir, dst_name)
                            } else {
                                s2
                            },
                            done,
                        ),
                    }
                },
            }
        }
    }

    /// The directory that [`Self::rename_step`] asks for its children: the
    /// entry found at the destination, where the source is declared a
    /// directory and what is found is a directory.
    pub open spec fn rename_lists(
        self,
        src_dir: DirEntry,
        src_name: Seq<char>,
        dst_dir: DirEntry,
        dst_name: Seq<char>,
        guard: bool,
        src_looked: Looked<D>,
        dst_looked: Looked<D>,
    ) -> Option<D> {
        if !valid_entry_name(src_name) || !valid_entry_name(dst_name) {
            None
        } else {
            let (s1, src) = self.lookup_locked_step(src_dir, src_name, src_looked);
            match src {
                Err(_) => None,
                Ok(src) => if guard && s1.entry(src).is_dir && s1.is_ancestor(src, dst_dir) {
                    None
                } else {
                    let (s2, dst) = s1.lookup_locked_step(dst_dir, dst_name, dst_looked);
                    match dst {
                        Err(_) => None,
                        Ok(dst) => if s2.entry(src).node_type == NodeType::Directory && s2.entry(
                            dst,
                        ).is_dir {
                            Some(s2.dir_ops(dst))
                        } else {
                            None
                        },
                    }
                },
            }
        }
    }

    /// What the backend is asked by [`Self::rename_step`], but for the
    /// listing of the destination ([`Self::rename_lists`]): for valid names,
    /// the lookup of the source; where that succeeds and the guard lets the
    /// source pass, the lookup of the destination; and where the verdict is
    /// good, to rename, with the directories and names in this order.
    pub open spec fn rename_told(
        self,
        src_dir: DirEntry,
        src_name: Seq<char>,
        dst_dir: DirEntry,
        dst_name: Seq<char>,
        guard: bool,
        src_looked: Looked<D>,
        dst_looked: Looked<D>,
        dst_children: Result<bool, VfsError>,
        done: VfsResult<()>,
    ) -> bool {
        (valid_entry_name(src_name) && valid_entry_name(dst_name)) ==> {
            let (s1, src) = self.lookup_locked_step(src_dir, src_name, src_looked);
            &&& self.lookup_locked_told(src_dir, src_name, src_looked)
            &&& (src is Ok && !(guard && s1.entry(src->Ok_0).is_dir && s1.is_ancestor(
                src->Ok_0,
                dst_dir,
            ))) ==> {
                let (s2, dst) = s1.lookup_locked_step(dst_dir, dst_name, dst_looked);
                let verdict = match dst {
                    Err(_) => Ok(()),
                    Ok(dst) => rename_verdict(
                        s2.entry(src->Ok_0).node_type,
                        s2.entry(dst).is_dir,
                        s2.entry(dst).node_type,
                        dst_children,
                    ),
                };
                &&& s1.lookup_locked_told(dst_dir, dst_name, dst_looked)
                &&& verdict is Ok ==> answers_rename(
                    s2.dir_ops(src_dir),
                    src_name,
                    s2.dir_ops(dst_dir),
                    dst_name,
                    done,
                )
            }
        }
    }

    /// Opening `name` in `dir`, creating it if the options say so.
    ///
    /// The name must be valid (`EINVAL`). The entry is looked up as
    /// [`Self::lookup_locked_step`] says. If it is found, it is the answer,
    /// unless a new file was asked for (`EEXIST`). If the lookup fails with
    /// `ENOENT` and creation is asked for, the backend creates a regular
    /// file, which is entered and cached; where an owner is given, the
    /// backend is then told the owner, and its failure is the failure of the
    /// operation, though the entry stays. Any other failure of the lookup is
    /// the answer.
    pub open spec fn open_file_step(
        self,
        dir: DirEntry,
        name: Seq<char>,
        create: bool,
        create_new: bool,
        has_user: bool,
        looked: Looked<D>,
        made: VfsResult<NewNode<D>>,
        owned: VfsResult<()>,
    ) -> (VfsView<D>, Result<DirEntry, VfsError>) {
        if !valid_entry_name(name) {
            (self, Err(VfsError::EINVAL))
        } else {
            let (s1, found) = self.lookup_locked_step(dir, name, looked);
            match found {
                Ok(entry) => if create_new {
                    (s1, Err(VfsError::EEXIST))
                } else {
                    (s1, Ok(entry))
                },
                Err(err) => if err == VfsError::ENOENT && create {
                    let (s2, created) = s1.create_locked_step(dir, name, made);
                    match created {
                        Err(e) => (s2, Err(e)),
                        Ok(entry) => if has_user && owned is Err {
                            (s2, Err(owned->Err_0))
                        } else {
                            (s2, Ok(entry))
                        },
                    }
                } else {
                    (s1, Err(err))
                },
            }
        }
    }

    /// What the backend is asked by [`Self::open_file_step`]: for a valid
    /// name, the lookup; where that fails with `ENOENT` and creation is asked
    /// for, to create a regular file with the given permission under the
    /// name; and where a file was made and an owner is given, the new node
    /// is told that owner and nothing else.
    pub open spec fn open_file_told(
        self,
        dir: DirEntry,
        name: Seq<char>,
        create: bool,
        permission: NodePermission,
        user: Option<(u32, u32)>,
        looked: Looked<D>,
        made: VfsResult<NewNode<D>>,
        owned: VfsResult<()>,
    ) -> bool {
        valid_entry_name(name) ==> {
            let found = self.lookup_locked_step(dir, name, looked).1;
            &&& self.lookup_locked_told(dir, name, looked)
            &&& (found == Err::<DirEntry, VfsError>(VfsError::ENOENT) && create) ==> {
                &&& answers_create(self.dir_ops(dir), name, NodeType::RegularFile, permission, made)
                &&& (made is Ok && user is Some) ==> answers_update(
                    made->Ok_0.backing(),
                    owner_update(user),
                    owned,
                )
            }
        }
    }

    /// A lookup from a position. `.` is the position itself; `..` the
    /// position above, or the position itself at the root of the namespace.
    /// Any other name is looked up in the entry, which must be a directory
    /// (`ENOTDIR`), as [`Self::lookup_step`] says; the walk then crosses to
    /// the mounts that are stacked on what was found.
    pub open spec fn location_lookup_step(self, loc: Location, name: Seq<char>, told: Told<D>) -> (
        VfsView<D>,
        Result<Location, VfsError>,
    ) {
        if name == dot() {
            (self, Ok(loc))
        } else if name == dotdot() {
            (
                self,
                Ok(
                    match self.location_parent(loc) {
                        Some(above) => above,
                        None => loc,
                    },
                ),
            )
        } else if !self.entry(loc.entry).is_dir {
            (self, Err(VfsError::ENOTDIR))
        } else {
            let (post, looked) = self.lookup_step(loc.entry, name, told);
            match looked {
                Err(e) => (post, Err(e)),
                Ok(entry) => (
                    post,
                    Ok(post.cross_mounts(Location { mountpoint: loc.mountpoint, entry })),
                ),
            }
        }
    }

    /// What the backend is asked by [`Self::location_lookup_step`]: for a
    /// name other than `.` and `..` in a directory, what
    /// [`Self::lookup_told`] says.
    pub open spec fn location_lookup_told(self, loc: Location, name: Seq<char>, told: Told<D>) -> bool {
        (name != dot() && name != dotdot() && self.entry(loc.entry).is_dir) ==> self.lookup_told(
            loc.entry,
            name,
            told,
        )
    }

    /// Creating or linking from a position: the entry must be a directory
    /// (`ENOTDIR`); the new entry is seen through the same mount.
    pub open spec fn location_create_step(
        self,
        loc: Location,
        name: Seq<char>,
        made: VfsResult<NewNode<D>>,
    ) -> (VfsView<D>, Result<Location, VfsError>) {
        if !self.entry(loc.entry).is_dir {
            (self, Err(VfsError::ENOTDIR))
        } else {
            let (post, r) = self.create_step(loc.entry, name, made);
            (post, at_mount(loc.mountpoint, r))
        }
    }

    /// Linking `node` under `name` at a position: a node that is seen
    /// through another mount is refused with `EXDEV`.
    pub open spec fn location_link_step(
        self,
        loc: Location,
        name: Seq<char>,
        node: Location,
        made: VfsResult<NewNode<D>>,
    ) -> (VfsView<D>, Result<Location, VfsError>) {
        if loc.mountpoint != node.mountpoint {
            (self, Err(VfsError::EXDEV))
        } else {
            self.location_create_step(loc, name, made)
        }
    }

    /// Removing a name at a position: the entry must be a directory
    /// (`ENOTDIR`).
    pub open spec fn location_unlink_step(
        self,
        loc: Location,
        name: Seq<char>,
        is_dir: bool,
        looked: Looked<D>,
        done: VfsResult<()>,
    ) -> (VfsView<D>, Result<(), VfsError>) {
        if !self.entry(loc.entry).is_dir {
            (self, Err(VfsError::ENOTDIR))
        } else {
            self.unlink_step(loc.entry, name, is_dir, looked, done)
        }
    }

    /// Whether a renaming from one position to another reaches the
    /// directories: both positions lie in one mount and are directories.
    pub open spec fn rename_reaches(self, src: Location, dst: Location) -> bool {
        src.mountpoint == dst.mountpoint && self.entry(src.entry).is_dir && self.entry(
            dst.entry,
        ).is_dir
    }

    /// Renaming from one position to another. Positions in different
    /// mounts are refused with `EXDEV`, a position that is no directory with
    /// `ENOTDIR`. Then the renaming goes as [`Self::rename_step`] says, with
    /// the guard set: a directory is not moved into itself or below itself
    /// (`EINVAL`).
    pub open spec fn location_rename_step(
        self,
        src: Location,
        src_name: Seq<char>,
        dst: Location,
        dst_name: Seq<char>,
        src_looked: Looked<D>,
        dst_looked: Looked<D>,
        dst_children: Result<bool, VfsError>,
        done: VfsResult<()>,
    ) -> (VfsView<D>, Result<(), VfsError>) {
        if src.mountpoint != dst.mountpoint {
            (self, Err(VfsError::EXDEV))
        } else if !self.entry(src.entry).is_dir || !self.entry(dst.entry).is_dir {
            (self, Err(VfsError::ENOTDIR))
        } else {
            self.rename_step(
                src.entry,
                src_name,
                dst.entry,
                dst_name,
                true,
                src_looked,
                dst_looked,
                dst_children,
                done,
            )
        }
    }

    /// Opening a name at a position: the entry must be a directory
    /// (`ENOTDIR`); the walk crosses to the mounts that are stacked on what
    /// was opened.
    pub open spec fn location_open_step(
        self,
        loc: Location,
        name: Seq<char>,
        create: bool,
        create_new: bool,
        has_user: bool,
        looked: Looked<D>,
        made: VfsResult<NewNode<D>>,
        owned: VfsResult<()>,
    ) -> (VfsView<D>, Result<Location, VfsError>) {
        if !self.entry(loc.entry).is_dir {
            (self, Err(VfsError::ENOTDIR))
        } else {
            let (post, r) = self.open_file_step(
                loc.entry,
                name,
                create,
                create_new,
                has_user,
                looked,
                made,
                owned,
            );
            match r {
                Err(e) => (post, Err(e)),
                Ok(entry) => (
                    post,
                    Ok(post.cross_mounts(Location { mountpoint: loc.mountpoint, entry })),
                ),
            }
        }
    }

    /// The state after a file system with the root directory `root` was
    /// mounted at `loc` under the device number `device`: its root is
    /// entered, the mount is entered with `loc` as its place, the slot of the
    /// directory at `loc` holds the mount, and the mount of `loc` lists it
    /// under the key of the directory.
    pub open spec fn mounted_at(self, loc: Location, root: D, device: u64) -> VfsView<D> {
        let m = Mountpoint { id: self.mounts.len() as usize };
        self.push_entry(fresh_entry(None, seq![], NodeType::Directory, Backing::Dir(root))).push_mount(
            MountView {
                root: self.next_entry(),
                location: Some(loc),
                device,
                children: Map::empty(),
            },
        ).with_mounted(loc.entry, Some(m)).with_child(loc.mountpoint, self.key_of(loc.entry), m)
    }

    /// Taking the mount of the position `loc` off. The position must be
    /// the root of a mount that is placed somewhere (`EINVAL`). The root
    /// drops its caches; then the slot of the directory at the place is
    /// emptied, which fails with `ENOTDIR` if there is no directory at the
    /// place.
    pub open spec fn unmount_step(self, loc: Location) -> (VfsView<D>, Result<(), VfsError>) {
        if self.entry(loc.entry).parent is Some {
            (self, Err(VfsError::EINVAL))
        } else {
            match self.mount(loc.mountpoint).location {
                None => (self, Err(VfsError::EINVAL)),
                Some(place) => {
                    let dropped = self.forget(loc.entry);
                    if !self.entry(place.entry).is_dir {
                        (dropped, Err(VfsError::ENOTDIR))
                    } else {
                        (dropped.with_mounted(place.entry, None), Ok(()))
                    }
                },
            }
        }
    }
}

} // verus!
