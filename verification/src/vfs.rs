use crate::entry::DirEntry;
use crate::model::{fresh_entry, EntryView, MountView, VfsView};
use crate::ops::Backing;
use crate::mount::{Location, Mountpoint};
use crate::ops::{DirNode, DirNodeOps, NewNode, Node};
use crate::table::Table;
use crate::types::NodeType;
use vstd::pervasive::unreached;
use vstd::prelude::*;

verus! {

/// The record of one entry.
struct Inner<D: DirNodeOps> {
    node: Node<D>,
    node_type: NodeType,
    parent: Option<DirEntry>,
    name: String,
}

/// The record of one mount.
struct MountInner {
    root: DirEntry,
    location: Option<Location>,
    device: u64,
    children: Table,
}

/// The mounts that a table of children stands for.
pub open spec fn children_of(table: Map<(int, Seq<char>), int>) -> Map<
    (int, Seq<char>),
    Mountpoint,
> {
    Map::new(
        |key: (int, Seq<char>)| table.contains_key(key),
        |key: (int, Seq<char>)| Mountpoint { id: table[key] as usize },
    )
}

impl<D: DirNodeOps> Inner<D> {
    spec fn view(&self) -> EntryView<D> {
        EntryView {
            parent: self.parent,
            name: self.name@,
            node_type: self.node_type,
            is_dir: self.node is Dir,
            backing: self.node.backing(),
            cache: match self.node {
                Node::Dir(dir) => dir.cache_view(),
                Node::File(_) => Map::empty(),
            },
            mounted: match self.node {
                Node::Dir(dir) => dir.mounted(),
                Node::File(_) => None,
            },
        }
    }

    spec fn inv(&self) -> bool {
        self.node matches Node::Dir(dir) ==> dir.wf()
    }
}

impl MountInner {
    spec fn view(&self) -> MountView {
        MountView {
            root: self.root,
            location: self.location,
            device: self.device,
            children: children_of(self.children@),
        }
    }
}

/// A namespace: the arena of all entries and all mounts, together with
/// the nodes of the backend that the entries stand for.
///
/// Entries and mounts are named by handles ([`DirEntry`], [`Mountpoint`],
/// [`Location`]); a handle is valid for the namespace that gave it out,
/// from then on.
pub struct Vfs<D: DirNodeOps> {
    entries: Vec<Inner<D>>,
    mounts: Vec<MountInner>,
}

impl<D: DirNodeOps> Vfs<D> {
    /// The state of the namespace.
    pub closed spec fn view(&self) -> VfsView<D> {
        VfsView {
            entries: Seq::new(self.entries.len() as nat, |i: int| self.entries[i].view()),
            mounts: Seq::new(self.mounts.len() as nat, |k: int| self.mounts[k].view()),
        }
    }

    /// The tables of the records are in order.
    pub closed spec fn inv(&self) -> bool {
        &&& forall|i: int| 0 <= i < self.entries.len() ==> (#[trigger] self.entries[i]).inv()
        &&& forall|k: int| 0 <= k < self.mounts.len() ==> (#[trigger] self.mounts[k]).children.wf()
    }

    /// The invariant of the namespace (see [`VfsView::wf`]).
    pub open spec fn wf(&self) -> bool {
        self.inv() && self@.wf()
    }

    /// The empty namespace.
    pub fn new() -> (r: Vfs<D>)
        ensures
            r.wf(),
            r@.entries.len() == 0,
            r@.mounts.len() == 0,
    {
        Vfs { entries: Vec::new(), mounts: Vec::new() }
    }

    /// The number of entries; the next entry gets this number.
    pub fn entry_count(&self) -> (r: usize)
        ensures
            r == self@.entries.len(),
    {
        self.entries.len()
    }

    /// The number of mounts; the next mount gets this number.
    pub fn mount_count(&self) -> (r: usize)
        ensures
            r == self@.mounts.len(),
    {
        self.mounts.len()
    }

    /// Whether `e` is an entry of this namespace.
    pub fn contains(&self, e: DirEntry) -> (r: bool)
        ensures
            r == self@.has_entry(e),
    {
        e.id < self.entries.len()
    }

    /// Whether `m` is a mount of this namespace.
    pub fn contains_mount(&self, m: Mountpoint) -> (r: bool)
        ensures
            r == self@.has_mount(m),
    {
        m.id < self.mounts.len()
    }

    /// Enters a node under `parent` with the name `name`, and returns the
    /// entry that now stands for it.
    pub(crate) fn enroll(&mut self, parent: Option<DirEntry>, name: String, node: NewNode<D>) -> (e:
        DirEntry)
        requires
            old(self).wf(),
            parent matches Some(p) ==> old(self)@.is_dir(p),
        ensures
            final(self).wf(),
            e.id == old(self)@.entries.len(),
            final(self)@ == old(self)@.push_entry(
                fresh_entry(parent, name@, node.node_type(), node.backing()),
            ),
    {
        let id: usize = self.entries.len();
        let ghost rec = fresh_entry(parent, name@, node.node_type(), node.backing());
        let inner = match node {
            NewNode::File(file, node_type) => Inner { node: Node::File(file), node_type, parent, name },
            NewNode::Dir(dir) => Inner {
                node: Node::Dir(dir.reset()),
                node_type: NodeType::Directory,
                parent,
                name,
            },
        };
        assert(inner.view() == rec);
        self.entries.push(inner);
        proof {
            assert(self@.entries =~= old(self)@.entries.push(rec));
            assert(self@.mounts =~= old(self)@.mounts);
            old(self)@.lemma_push_entry_wf(rec);
        }
        DirEntry { id }
    }

    /// The parent of an entry.
    pub fn parent_of(&self, e: DirEntry) -> (r: Option<DirEntry>)
        requires
            self@.has_entry(e),
        ensures
            r == self@.entry(e).parent,
    {
        self.entries[e.id].parent
    }

    /// The name of an entry.
    pub fn name_of(&self, e: DirEntry) -> (r: &str)
        requires
            self@.has_entry(e),
        ensures
            r@ == self@.entry(e).name,
    {
        self.entries[e.id].name.as_str()
    }

    /// The declared type of an entry.
    pub fn node_type_of(&self, e: DirEntry) -> (r: NodeType)
        requires
            self@.has_entry(e),
        ensures
            r == self@.entry(e).node_type,
    {
        self.entries[e.id].node_type
    }

    /// The node of an entry.
    pub fn node(&self, e: DirEntry) -> (r: &Node<D>)
        requires
            self.wf(),
            self@.has_entry(e),
        ensures
            r.backing() == self@.entry(e).backing,
            r is Dir == self@.entry(e).is_dir,
            r matches Node::Dir(dir) ==> {
                &&& dir.wf()
                &&& dir.cache_view() == self@.entry(e).cache
                &&& dir.mounted() == self@.entry(e).mounted
            },
    {
        assert(self.entries[e.id as int].inv());
        &self.entries[e.id].node
    }

    /// The directory node of a directory.
    pub fn dir_node(&self, dir: DirEntry) -> (r: &DirNode<D>)
        requires
            self.wf(),
            self@.is_dir(dir),
        ensures
            r.ops() == self@.dir_ops(dir),
            r.wf(),
            r.cache_view() == self@.entry(dir).cache,
            r.mounted() == self@.entry(dir).mounted,
    {
        match self.node(dir) {
            Node::Dir(node) => node,
            Node::File(_) => unreached(),
        }
    }

    /// Puts `child` into the cache of `dir` under `name`, and returns what
    /// was cached there before.
    pub(crate) fn cache_insert(&mut self, dir: DirEntry, name: String, child: DirEntry) -> (r: Option<
        DirEntry,
    >)
        requires
            old(self).wf(),
            old(self)@.is_dir(dir),
            old(self)@.has_entry(child),
            old(self)@.entry(child).parent == Some(dir),
            old(self)@.entry(child).name == name@,
        ensures
            final(self).wf(),
            final(self)@ == old(self)@.cache_insert(dir, name@, child),
            r == if old(self)@.entry(dir).cache.contains_key(name@) {
                Some(old(self)@.entry(dir).cache[name@])
            } else {
                None
            },
    {
        let ghost key = name@;
        assert(self.entries[dir.id as int].inv());
        let r = match &mut self.entries[dir.id].node {
            Node::Dir(node) => node.cache_put(name, child),
            Node::File(_) => None,
        };
        proof {
            assert(self@.entries =~= old(self)@.cache_insert(dir, key, child).entries);
            assert(self@.mounts =~= old(self)@.mounts);
            old(self)@.lemma_cache_insert_wf(dir, key, child);
            assert forall|i: int| 0 <= i < self.entries.len() implies (
            #[trigger] self.entries[i]).inv() by {
                assert(old(self).entries[i].inv());
            }
        }
        r
    }

    /// Takes what `dir` caches under `name` out of the cache, and returns
    /// it.
    pub(crate) fn cache_remove(&mut self, dir: DirEntry, name: &String) -> (r: Option<DirEntry>)
        requires
            old(self).wf(),
            old(self)@.is_dir(dir),
        ensures
            final(self).wf(),
            final(self)@ == old(self)@.cache_remove(dir, name@),
            r == if old(self)@.entry(dir).cache.contains_key(name@) {
                Some(old(self)@.entry(dir).cache[name@])
            } else {
                None
            },
    {
        assert(self.entries[dir.id as int].inv());
        let r = match &mut self.entries[dir.id].node {
            Node::Dir(node) => node.cache_drop(name),
            Node::File(_) => None,
        };
        proof {
            assert(self@.entries =~= old(self)@.cache_remove(dir, name@).entries);
            assert(self@.mounts =~= old(self)@.mounts);
            old(self)@.lemma_shrink_cache_wf(dir, old(self)@.entry(dir).cache.remove(name@));
            assert forall|i: int| 0 <= i < self.entries.len() implies (
            #[trigger] self.entries[i]).inv() by {
                assert(old(self).entries[i].inv());
            }
        }
        r
    }

    /// Empties the cache of `dir` and returns the entries it held.
    pub(crate) fn cache_take(&mut self, dir: DirEntry) -> (r: Vec<usize>)
        requires
            old(self).wf(),
            old(self)@.is_dir(dir),
        ensures
            final(self).wf(),
            final(self)@ == old(self)@.with_cache(dir, Map::empty()),
            forall|id: usize| #[trigger]
                r@.contains(id) <==> exists|name: Seq<char>|
                    old(self)@.entry(dir).cache.contains_key(name) && #[trigger] old(self)@.entry(
                        dir,
                    ).cache[name] == (DirEntry { id }),
    {
        assert(self.entries[dir.id as int].inv());
        assert(self@.entry(dir).cache == self.entries[dir.id as int].node->Dir_0.cache_view());
        let r = match &mut self.entries[dir.id].node {
            Node::Dir(node) => node.cache_take(),
            Node::File(_) => Vec::new(),
        };
        proof {
            assert(self@.entries =~= old(self)@.with_cache(dir, Map::empty()).entries);
            assert(self@.mounts =~= old(self)@.mounts);
            old(self)@.lemma_shrink_cache_wf(dir, Map::empty());
            assert forall|i: int| 0 <= i < self.entries.len() implies (
            #[trigger] self.entries[i]).inv() by {
                assert(old(self).entries[i].inv());
            }
        }
        r
    }

    /// Puts `mounted` into the slot of `dir`.
    pub(crate) fn set_mounted(&mut self, dir: DirEntry, mounted: Option<Mountpoint>)
        requires
            old(self).wf(),
            old(self)@.is_dir(dir),
            mounted matches Some(m) ==> old(self)@.has_mount(m) && (old(self)@.mount(
                m,
            ).location matches Some(loc) && loc.entry == dir),
        ensures
            final(self).wf(),
            final(self)@ == old(self)@.with_mounted(dir, mounted),
    {
        assert(self.entries[dir.id as int].inv());
        match &mut self.entries[dir.id].node {
            Node::Dir(node) => node.set_mountpoint(mounted),
            Node::File(_) => {},
        }
        proof {
            assert(self@.entries =~= old(self)@.with_mounted(dir, mounted).entries);
            assert(self@.mounts =~= old(self)@.mounts);
            match mounted {
                Some(m) => old(self)@.lemma_set_mounted_wf(dir, m),
                None => old(self)@.lemma_clear_mounted_wf(dir),
            }
            assert forall|i: int| 0 <= i < self.entries.len() implies (
            #[trigger] self.entries[i]).inv() by {
                assert(old(self).entries[i].inv());
            }
        }
    }

    /// The largest device number of the namespace; zero if there is no
    /// mount.
    pub fn last_device(&self) -> (r: u64)
        ensures
            r == self@.last_device(),
    {
        let n: usize = self.mounts.len();
        if n == 0 {
            0
        } else {
            self.mounts[n - 1].device
        }
    }

    /// Enters a mount with the root directory `root` and the device number
    /// `device`, placed at `location`, and returns it. The slot of the
    /// directory at `location` is left as it is.
    pub(crate) fn add_mount(
        &mut self,
        root: DirNode<D>,
        location: Option<Location>,
        device: u64,
    ) -> (m: Mountpoint)
        requires
            old(self).wf(),
            location matches Some(loc) ==> old(self)@.has_location(loc),
            old(self)@.last_device() < device,
        ensures
            final(self).wf(),
            m.id == old(self)@.mounts.len(),
            final(self)@ == old(self)@.push_entry(
                fresh_entry(None, seq![], NodeType::Directory, Backing::Dir(root.ops())),
            ).push_mount(
                MountView {
                    root: DirEntry { id: old(self)@.entries.len() as usize },
                    location,
                    device,
                    children: Map::empty(),
                },
            ),
    {
        let entry = self.enroll(None, String::new(), NewNode::Dir(root));
        let ghost mid = self@;
        let id: usize = self.mounts.len();
        let ghost rec = MountView { root: entry, location, device, children: Map::empty() };
        let inner = MountInner { root: entry, location, device, children: Table::new() };
        assert(inner.view().children =~= rec.children);
        self.mounts.push(inner);
        proof {
            assert(self@.mounts =~= mid.mounts.push(rec));
            assert(self@.entries =~= mid.entries);
            assert forall|j: int| 0 <= j < mid.mounts.len() implies (#[trigger] mid.mounts[j]).root.id
                < entry.id by {
                assert(old(self)@.mount_wf(j));
            }
            assert(mid.mounts =~= old(self)@.mounts);
            mid.lemma_push_mount_wf(rec);
        }
        Mountpoint { id }
    }

    /// The root entry of a mount.
    pub fn mount_root(&self, m: Mountpoint) -> (r: DirEntry)
        requires
            self@.has_mount(m),
        ensures
            r == self@.mount(m).root,
    {
        self.mounts[m.id].root
    }

    /// The place of a mount.
    pub fn mount_location(&self, m: Mountpoint) -> (r: Option<Location>)
        requires
            self@.has_mount(m),
        ensures
            r == self@.mount(m).location,
    {
        self.mounts[m.id].location
    }

    /// The device number of a mount.
    pub fn mount_device(&self, m: Mountpoint) -> (r: u64)
        requires
            self@.has_mount(m),
        ensures
            r == self@.mount(m).device,
    {
        self.mounts[m.id].device
    }

    /// Lists `child` among the children of `m` under the key made of
    /// `addr` and `name`.
    pub(crate) fn register_child(&mut self, m: Mountpoint, addr: usize, name: String, child: Mountpoint)
        requires
            old(self).wf(),
            old(self)@.has_mount(m),
            old(self)@.has_mount(child),
        ensures
            final(self).wf(),
            final(self)@ == old(self)@.with_child(m, (addr as int, name@), child),
    {
        let ghost key = (addr as int, name@);
        self.mounts[m.id].children.insert(addr, name, child.id);
        proof {
            assert(self.mounts[m.id as int].view().children =~= old(self)@.mount(
                m,
            ).children.insert(key, child));
            assert(self@.mounts =~= old(self)@.with_child(m, key, child).mounts);
            assert(self@.entries =~= old(self)@.entries);
            old(self)@.lemma_with_child_wf(m, key, child);
            assert forall|i: int| 0 <= i < self.entries.len() implies (
            #[trigger] self.entries[i]).inv() by {
                assert(old(self).entries[i].inv());
            }
            assert forall|k: int| 0 <= k < self.mounts.len() implies (
            #[trigger] self.mounts[k]).children.wf() by {
                assert(old(self).mounts[k].children.wf());
            }
        }
    }

    /// The mount that `m` lists under the key made of `addr` and `name`.
    pub fn child_of(&self, m: Mountpoint, addr: usize, name: &str) -> (r: Option<Mountpoint>)
        requires
            self.wf(),
            self@.has_mount(m),
        ensures
            r == if self@.mount(m).children.contains_key((addr as int, name@)) {
                Some(self@.mount(m).children[(addr as int, name@)])
            } else {
                None
            },
    {
        assert(self.mounts[m.id as int].children.wf());
        let key = name.to_owned();
        match self.mounts[m.id].children.get(addr, &key) {
            Some(id) => Some(Mountpoint { id }),
            None => None,
        }
    }
}

} // verus!
