use crate::entry::DirEntry;
use crate::mount::{Location, Mountpoint};
use crate::ops::{Backing, DirNodeOps};
use crate::path::absolute_path_of;
use crate::types::NodeType;
use vstd::prelude::*;

verus! {

/// What the namespace records of one entry.
pub struct EntryView<D: DirNodeOps> {
    /// The directory through which the entry was found; `None` for the
    /// root of a mount.
    pub parent: Option<DirEntry>,
    /// The name under which it was found.
    pub name: Seq<char>,
    /// The declared type of the node.
    pub node_type: NodeType,
    /// Whether the node is a directory node.
    pub is_dir: bool,
    /// The object of the backend that the entry stands for.
    pub backing: Backing<D>,
    /// The cached children of a directory, by name.
    pub cache: Map<Seq<char>, DirEntry>,
    /// The mount that is stacked on this directory.
    pub mounted: Option<Mountpoint>,
}

/// What the namespace records of one mount.
pub struct MountView {
    /// The root entry of the mounted file system.
    pub root: DirEntry,
    /// Where the mount is placed; `None` for a root mount of the namespace.
    pub location: Option<Location>,
    /// The device number.
    pub device: u64,
    /// The mounts that were placed on entries seen through this mount,
    /// by the key of the entry.
    pub children: Map<(int, Seq<char>), Mountpoint>,
}

/// The state of a namespace: all its entries and all its mounts, each in
/// the order in which they were entered.
pub struct VfsView<D: DirNodeOps> {
    pub entries: Seq<EntryView<D>>,
    pub mounts: Seq<MountView>,
}

/// The record of an entry that was just entered: nothing cached, nothing
/// mounted. It is a directory exactly if it stands for a directory of the
/// backend.
pub open spec fn fresh_entry<D: DirNodeOps>(
    parent: Option<DirEntry>,
    name: Seq<char>,
    node_type: NodeType,
    backing: Backing<D>,
) -> EntryView<D> {
    EntryView {
        parent,
        name,
        node_type,
        is_dir: backing is Dir,
        backing,
        cache: Map::empty(),
        mounted: None,
    }
}

impl<D: DirNodeOps> VfsView<D> {
    pub open spec fn has_entry(self, e: DirEntry) -> bool {
        e.id < self.entries.len()
    }

    pub open spec fn has_mount(self, m: Mountpoint) -> bool {
        m.id < self.mounts.len()
    }

    pub open spec fn has_location(self, loc: Location) -> bool {
        self.has_mount(loc.mountpoint) && self.has_entry(loc.entry)
    }

    pub open spec fn entry(self, e: DirEntry) -> EntryView<D> {
        self.entries[e.id as int]
    }

    pub open spec fn mount(self, m: Mountpoint) -> MountView {
        self.mounts[m.id as int]
    }

    /// Whether `e` is a directory of the namespace.
    pub open spec fn is_dir(self, e: DirEntry) -> bool {
        self.has_entry(e) && self.entry(e).is_dir
    }

    /// Whether `child` is cached in `dir` under its own name.
    pub open spec fn cached_at(self, dir: DirEntry, child: DirEntry) -> bool {
        let name = self.entry(child).name;
        self.entry(dir).cache.contains_key(name) && self.entry(dir).cache[name] == child
    }

    /// The invariant of one entry.
    pub open spec fn entry_wf(self, i: int) -> bool {
        let e = self.entries[i];
        &&& e.parent matches Some(p) ==> p.id < i && self.entries[p.id as int].is_dir
        &&& e.is_dir == e.backing is Dir
        &&& e.is_dir ==> e.node_type == NodeType::Directory
        &&& !e.is_dir ==> e.cache == Map::<Seq<char>, DirEntry>::empty() && e.mounted is None
        &&& forall|name: Seq<char>| #[trigger]
            e.cache.contains_key(name) ==> {
                let c = e.cache[name];
                &&& self.has_entry(c)
                &&& self.entry(c).parent == Some(DirEntry { id: i as usize })
                &&& self.entry(c).name == name
            }
        &&& e.mounted matches Some(m) ==> {
            &&& self.has_mount(m)
            &&& self.mount(m).location matches Some(loc) && loc.entry.id == i
        }
    }

    /// The invariant of one mount.
    pub open spec fn mount_wf(self, k: int) -> bool {
        let m = self.mounts[k];
        &&& self.is_dir(m.root)
        &&& self.entry(m.root).parent is None
        &&& m.location matches Some(loc) ==> {
            &&& loc.mountpoint.id < k
            &&& loc.entry.id < m.root.id
        }
        &&& forall|key: (int, Seq<char>)| #[trigger]
            m.children.contains_key(key) ==> self.has_mount(m.children[key])
        &&& forall|j: int|
            0 <= j < k ==> (#[trigger] self.mounts[j]).root.id < m.root.id && self.mounts[j].device
                < m.device
    }

    /// The invariant of the namespace.
    ///
    /// An entry is entered after its parent, and its parent is a
    /// directory. What a directory caches under a name is an entry of that
    /// name whose parent is the directory. A mount that stands in the slot
    /// of a directory is placed on that directory. The root of a mount is a
    /// directory without a parent, entered after the entry on which the
    /// mount is placed, and the device numbers of the mounts grow with the
    /// order in which the mounts were entered.
    pub open spec fn wf(self) -> bool {
        &&& self.entries.len() <= usize::MAX
        &&& self.mounts.len() <= usize::MAX
        &&& forall|i: int| 0 <= i < self.entries.len() ==> #[trigger] self.entry_wf(i)
        &&& forall|k: int| 0 <= k < self.mounts.len() ==> #[trigger] self.mount_wf(k)
    }

    /// The largest device number of the namespace; zero if there is no
    /// mount.
    pub open spec fn last_device(self) -> u64 {
        if self.mounts.len() == 0 {
            0
        } else {
            self.mounts.last().device
        }
    }

    /// The directory of the backend that a directory entry stands for.
    pub open spec fn dir_ops(self, dir: DirEntry) -> D {
        self.entry(dir).backing->Dir_0
    }

    /// Whether `a` is `b` or lies above `b` on the way to the root.
    pub open spec fn is_ancestor(self, a: DirEntry, b: DirEntry) -> bool
        decreases b.id,
    {
        a == b || (self.has_entry(b) && match self.entry(b).parent {
            Some(p) => p.id < b.id && self.is_ancestor(a, p),
            None => false,
        })
    }

    /// The names on the way from `e` up to the root of its mount, the name
    /// of `e` first; the root itself adds none.
    pub open spec fn entry_names(self, e: DirEntry) -> Seq<Seq<char>>
        decreases e.id,
    {
        if !self.has_entry(e) {
            seq![]
        } else {
            match self.entry(e).parent {
                Some(p) => if p.id < e.id {
                    seq![self.entry(e).name] + self.entry_names(p)
                } else {
                    seq![]
                },
                None => seq![],
            }
        }
    }

    /// The names on the way from `loc` up to the root of the namespace:
    /// those that lead from the entry up to the root of its mount, then
    /// those that lead up from the place of the mount.
    pub open spec fn location_names(self, loc: Location) -> Seq<Seq<char>>
        decreases loc.mountpoint.id,
    {
        if !self.has_mount(loc.mountpoint) {
            self.entry_names(loc.entry)
        } else {
            match self.mount(loc.mountpoint).location {
                Some(above) => if above.mountpoint.id < loc.mountpoint.id {
                    self.entry_names(loc.entry) + self.location_names(above)
                } else {
                    self.entry_names(loc.entry)
                },
                None => self.entry_names(loc.entry),
            }
        }
    }

    /// The absolute path of an entry within its mount.
    pub open spec fn entry_path(self, e: DirEntry) -> Seq<char> {
        absolute_path_of(self.entry_names(e).reverse())
    }

    /// The absolute path of a position in the namespace. The root of a
    /// mount appears under the name of the place of the mount.
    pub open spec fn location_path(self, loc: Location) -> Seq<char> {
        absolute_path_of(self.location_names(loc).reverse())
    }

    /// The position above `loc`: the parent of its entry in the same
    /// mount, or, at the root of a mount, the position above the place of
    /// the mount. The root of the namespace has none.
    pub open spec fn location_parent(self, loc: Location) -> Option<Location>
        decreases loc.mountpoint.id,
    {
        match self.entry(loc.entry).parent {
            Some(p) => Some(Location { mountpoint: loc.mountpoint, entry: p }),
            None => if !self.has_mount(loc.mountpoint) {
                None
            } else {
                match self.mount(loc.mountpoint).location {
                    Some(above) => if above.mountpoint.id < loc.mountpoint.id {
                        self.location_parent(above)
                    } else {
                        None
                    },
                    None => None,
                }
            },
        }
    }

    /// The name of `loc` as seen from above: at the root of a mount, the
    /// name of the place of the mount; the empty name at the root of the
    /// namespace.
    pub open spec fn location_name(self, loc: Location) -> Seq<char>
        decreases loc.mountpoint.id,
    {
        if self.entry(loc.entry).parent is Some {
            self.entry(loc.entry).name
        } else if !self.has_mount(loc.mountpoint) {
            seq![]
        } else {
            match self.mount(loc.mountpoint).location {
                Some(above) => if above.mountpoint.id < loc.mountpoint.id {
                    self.location_name(above)
                } else {
                    seq![]
                },
                None => seq![],
            }
        }
    }

    /// The topmost mount of the stack that starts with `m`: while a mount
    /// stands on the root of the mount, go to that one.
    pub open spec fn effective(self, m: Mountpoint) -> Mountpoint
        decreases self.entries.len() - self.mount(m).root.id,
    {
        if !self.has_mount(m) || !self.has_entry(self.mount(m).root) {
            m
        } else {
            match self.entry(self.mount(m).root).mounted {
                Some(top) => if self.has_mount(top) && self.has_entry(self.mount(top).root)
                    && self.mount(m).root.id < self.mount(top).root.id {
                    self.effective(top)
                } else {
                    m
                },
                None => m,
            }
        }
    }

    /// Where a walk stands after it has reached `loc`: at the root of the
    /// topmost mount that is stacked on `loc`, or at `loc` itself if nothing
    /// is mounted there.
    pub open spec fn cross_mounts(self, loc: Location) -> Location {
        match self.entry(loc.entry).mounted {
            Some(m) => {
                let top = self.effective(m);
                Location { mountpoint: top, entry: self.mount(top).root }
            },
            None => loc,
        }
    }

    /// Whether `e` is `dir` or hangs below `dir` by cached links alone.
    pub open spec fn under(self, dir: DirEntry, e: DirEntry) -> bool
        decreases e.id,
    {
        e == dir || (self.has_entry(e) && match self.entry(e).parent {
            Some(p) => p.id < e.id && self.has_entry(p) && self.cached_at(p, e) && self.under(
                dir,
                p,
            ),
            None => false,
        })
    }

    /// The namespace with one more entry.
    pub open spec fn push_entry(self, rec: EntryView<D>) -> VfsView<D> {
        VfsView { entries: self.entries.push(rec), mounts: self.mounts }
    }

    /// The namespace with one more mount.
    pub open spec fn push_mount(self, rec: MountView) -> VfsView<D> {
        VfsView { entries: self.entries, mounts: self.mounts.push(rec) }
    }

    /// The namespace in which `dir` caches `cache`.
    pub open spec fn with_cache(self, dir: DirEntry, cache: Map<Seq<char>, DirEntry>) -> VfsView<D> {
        VfsView {
            entries: Seq::new(
                self.entries.len(),
                |i: int|
                    if i == dir.id {
                        EntryView { cache, ..self.entries[i] }
                    } else {
                        self.entries[i]
                    },
            ),
            mounts: self.mounts,
        }
    }

    /// The namespace in which `dir` caches `child` under `name`.
    pub open spec fn cache_insert(self, dir: DirEntry, name: Seq<char>, child: DirEntry) -> VfsView<D> {
        self.with_cache(dir, self.entry(dir).cache.insert(name, child))
    }

    /// The namespace in which `dir` caches nothing under `name`.
    pub open spec fn cache_remove(self, dir: DirEntry, name: Seq<char>) -> VfsView<D> {
        self.with_cache(dir, self.entry(dir).cache.remove(name))
    }

    /// The namespace in which the slot of `dir` holds `mounted`.
    pub open spec fn with_mounted(self, dir: DirEntry, mounted: Option<Mountpoint>) -> VfsView<D> {
        VfsView {
            entries: Seq::new(
                self.entries.len(),
                |i: int|
                    if i == dir.id {
                        EntryView { mounted, ..self.entries[i] }
                    } else {
                        self.entries[i]
                    },
            ),
            mounts: self.mounts,
        }
    }

    /// The namespace in which `m` lists `child` under `key`.
    pub open spec fn with_child(
        self,
        m: Mountpoint,
        key: (int, Seq<char>),
        child: Mountpoint,
    ) -> VfsView<D> {
        VfsView {
            entries: self.entries,
            mounts: self.mounts.update(
                m.id as int,
                MountView { children: self.mount(m).children.insert(key, child), ..self.mount(m) },
            ),
        }
    }

    /// The namespace after `dir` and every directory that hangs below it by
    /// cached links have dropped their caches.
    pub open spec fn forget(self, dir: DirEntry) -> VfsView<D> {
        VfsView {
            entries: Seq::new(
                self.entries.len(),
                |i: int|
                    if self.under(dir, DirEntry { id: i as usize }) {
                        EntryView { cache: Map::empty(), ..self.entries[i] }
                    } else {
                        self.entries[i]
                    },
            ),
            mounts: self.mounts,
        }
    }

    /// The namespace after `dir` has dropped what it caches under `name`,
    /// and what was cached there, if it is a directory, has dropped its
    /// caches as [`Self::forget`] says.
    pub open spec fn forget_entry(self, dir: DirEntry, name: Seq<char>) -> VfsView<D> {
        if self.entry(dir).cache.contains_key(name) {
            let child = self.entry(dir).cache[name];
            if self.entry(child).is_dir {
                self.cache_remove(dir, name).forget(child)
            } else {
                self.cache_remove(dir, name)
            }
        } else {
            self
        }
    }

    /// The key under which a mount on `e` is listed: the address of the
    /// parent of `e`, or zero if it has none, and the name of `e`.
    pub open spec fn key_of(self, e: DirEntry) -> (int, Seq<char>) {
        (
            match self.entry(e).parent {
                Some(p) => p.id + 1,
                None => 0,
            },
            self.entry(e).name,
        )
    }

    /// Entering an entry keeps the invariant.
    pub proof fn lemma_push_entry_wf(self, rec: EntryView<D>)
        requires
            self.wf(),
            self.entries.len() < usize::MAX,
            rec.parent matches Some(p) ==> self.is_dir(p),
            rec.is_dir == rec.backing is Dir,
            rec.is_dir ==> rec.node_type == NodeType::Directory,
            rec.cache == Map::<Seq<char>, DirEntry>::empty(),
            rec.mounted is None,
        ensures
            self.push_entry(rec).wf(),
    {
        let post = self.push_entry(rec);
        assert forall|i: int| 0 <= i < post.entries.len() implies #[trigger] post.entry_wf(i) by {
            if i < self.entries.len() {
                assert(self.entry_wf(i));
                assert(post.entries[i] == self.entries[i]);
            }
        }
        assert forall|k: int| 0 <= k < post.mounts.len() implies #[trigger] post.mount_wf(k) by {
            assert(self.mount_wf(k));
        }
    }

    /// Caching an entry in its parent under its name keeps the invariant.
    pub proof fn lemma_cache_insert_wf(self, dir: DirEntry, name: Seq<char>, child: DirEntry)
        requires
            self.wf(),
            self.is_dir(dir),
            self.has_entry(child),
            self.entry(child).parent == Some(dir),
            self.entry(child).name == name,
        ensures
            self.cache_insert(dir, name, child).wf(),
    {
        let post = self.cache_insert(dir, name, child);
        assert forall|i: int| 0 <= i < post.entries.len() implies #[trigger] post.entry_wf(i) by {
            assert(self.entry_wf(i));
            assert(self.entry_wf(dir.id as int));
            if i == dir.id {
                assert(DirEntry { id: i as usize } == dir);
            }
        }
        assert forall|k: int| 0 <= k < post.mounts.len() implies #[trigger] post.mount_wf(k) by {
            assert(self.mount_wf(k));
        }
    }

    /// Replacing the cache of a directory by a part of it keeps the
    /// invariant.
    pub proof fn lemma_shrink_cache_wf(self, dir: DirEntry, cache: Map<Seq<char>, DirEntry>)
        requires
            self.wf(),
            self.has_entry(dir),
            cache.submap_of(self.entry(dir).cache),
        ensures
            self.with_cache(dir, cache).wf(),
    {
        let post = self.with_cache(dir, cache);
        assert forall|i: int| 0 <= i < post.entries.len() implies #[trigger] post.entry_wf(i) by {
            assert(self.entry_wf(i));
            assert(self.entry_wf(dir.id as int));
            if i == dir.id {
                if !self.entry(dir).is_dir {
                    assert(cache =~= Map::<Seq<char>, DirEntry>::empty());
                }
                assert forall|name: Seq<char>| #[trigger] cache.contains_key(name) implies {
                    let c = cache[name];
                    &&& post.has_entry(c)
                    &&& post.entry(c).parent == Some(DirEntry { id: i as usize })
                    &&& post.entry(c).name == name
                } by {
                    assert(self.entry(dir).cache.contains_key(name));
                }
            } else {
                assert forall|name: Seq<char>| #[trigger]
                    post.entries[i].cache.contains_key(name) implies {
                    let c = post.entries[i].cache[name];
                    &&& post.has_entry(c)
                    &&& post.entry(c).parent == Some(DirEntry { id: i as usize })
                    &&& post.entry(c).name == name
                } by {
                    assert(self.entries[i].cache.contains_key(name));
                }
            }
        }
        assert forall|k: int| 0 <= k < post.mounts.len() implies #[trigger] post.mount_wf(k) by {
            assert(self.mount_wf(k));
        }
    }

    /// Emptying the slot of a directory keeps the invariant.
    pub proof fn lemma_clear_mounted_wf(self, dir: DirEntry)
        requires
            self.wf(),
            self.has_entry(dir),
        ensures
            self.with_mounted(dir, None).wf(),
    {
        let post = self.with_mounted(dir, None);
        assert forall|i: int| 0 <= i < post.entries.len() implies #[trigger] post.entry_wf(i) by {
            assert(self.entry_wf(i));
            assert(self.entry_wf(dir.id as int));
            assert forall|name: Seq<char>| #[trigger]
                post.entries[i].cache.contains_key(name) implies {
                let c = post.entries[i].cache[name];
                &&& post.has_entry(c)
                &&& post.entry(c).parent == Some(DirEntry { id: i as usize })
                &&& post.entry(c).name == name
            } by {
                assert(self.entries[i].cache.contains_key(name));
            }
        }
        assert forall|k: int| 0 <= k < post.mounts.len() implies #[trigger] post.mount_wf(k) by {
            assert(self.mount_wf(k));
        }
    }
    /// Putting a mount that is placed on a directory into the slot of that
    /// directory keeps the invariant.
    pub proof fn lemma_set_mounted_wf(self, dir: DirEntry, m: Mountpoint)
        requires
            self.wf(),
            self.is_dir(dir),
            self.has_mount(m),
            self.mount(m).location matches Some(loc) && loc.entry == dir,
        ensures
            self.with_mounted(dir, Some(m)).wf(),
    {
        let post = self.with_mounted(dir, Some(m));
        assert forall|i: int| 0 <= i < post.entries.len() implies #[trigger] post.entry_wf(i) by {
            assert(self.entry_wf(i));
            assert(self.entry_wf(dir.id as int));
            assert forall|name: Seq<char>| #[trigger]
                post.entries[i].cache.contains_key(name) implies {
                let c = post.entries[i].cache[name];
                &&& post.has_entry(c)
                &&& post.entry(c).parent == Some(DirEntry { id: i as usize })
                &&& post.entry(c).name == name
            } by {
                assert(self.entries[i].cache.contains_key(name));
            }
        }
        assert forall|k: int| 0 <= k < post.mounts.len() implies #[trigger] post.mount_wf(k) by {
            assert(self.mount_wf(k));
        }
    }

    /// Entering a mount whose root is the newest entry keeps the invariant.
    pub proof fn lemma_push_mount_wf(self, rec: MountView)
        requires
            self.wf(),
            self.mounts.len() < usize::MAX,
            self.is_dir(rec.root),
            rec.root.id + 1 == self.entries.len(),
            self.entry(rec.root).parent is None,
            rec.location matches Some(loc) ==> self.has_mount(loc.mountpoint) && loc.entry.id
                < rec.root.id,
            self.last_device() < rec.device,
            rec.children == Map::<(int, Seq<char>), Mountpoint>::empty(),
            forall|j: int| 0 <= j < self.mounts.len() ==> (#[trigger] self.mounts[j]).root.id
                < rec.root.id,
        ensures
            self.push_mount(rec).wf(),
    {
        let post = self.push_mount(rec);
        assert forall|i: int| 0 <= i < post.entries.len() implies #[trigger] post.entry_wf(i) by {
            assert(self.entry_wf(i));
        }
        assert forall|k: int| 0 <= k < post.mounts.len() implies #[trigger] post.mount_wf(k) by {
            if k < self.mounts.len() {
                assert(self.mount_wf(k));
                assert(post.mounts[k] == self.mounts[k]);
                assert forall|j: int| 0 <= j < k implies (#[trigger] post.mounts[j]).root.id
                    < post.mounts[k].root.id && post.mounts[j].device < post.mounts[k].device by {
                    assert(post.mounts[j] == self.mounts[j]);
                }
            } else {
                assert forall|j: int| 0 <= j < k implies (#[trigger] post.mounts[j]).root.id
                    < post.mounts[k].root.id && post.mounts[j].device < post.mounts[k].device by {
                    assert(post.mounts[j] == self.mounts[j]);
                    if j < k - 1 {
                        assert(self.mount_wf(k - 1));
                    }
                }
            }
        }
    }

    /// Listing a mount among the children of another keeps the invariant.
    pub proof fn lemma_with_child_wf(self, m: Mountpoint, key: (int, Seq<char>), child: Mountpoint)
        requires
            self.wf(),
            self.has_mount(m),
            self.has_mount(child),
        ensures
            self.with_child(m, key, child).wf(),
    {
        let post = self.with_child(m, key, child);
        assert forall|i: int| 0 <= i < post.entries.len() implies #[trigger] post.entry_wf(i) by {
            assert(self.entry_wf(i));
            if self.entries[i].mounted is Some {
                let t = self.entries[i].mounted->0;
                assert(post.mount(t).location == self.mount(t).location);
            }
        }
        assert forall|k: int| 0 <= k < post.mounts.len() implies #[trigger] post.mount_wf(k) by {
            assert(self.mount_wf(k));
            assert(self.mount_wf(m.id as int));
            assert forall|j: int| 0 <= j < k implies (#[trigger] post.mounts[j]).root.id
                < post.mounts[k].root.id && post.mounts[j].device < post.mounts[k].device by {
                assert(post.mounts[j].root == self.mounts[j].root);
                assert(post.mounts[j].device == self.mounts[j].device);
                assert(self.mounts[j].root.id < self.mounts[k].root.id);
            }
            assert forall|q: (int, Seq<char>)| #[trigger]
                post.mounts[k].children.contains_key(q) implies post.has_mount(
                post.mounts[k].children[q],
            ) by {
                if k == m.id && q == key {
                } else {
                    assert(self.mounts[k].children.contains_key(q));
                }
            }
        }
    }
}

} // verus!
