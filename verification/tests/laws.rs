use std::collections::BTreeMap;
use std::sync::{Arc, Mutex, MutexGuard};

use vfs_core::{
    ChildProbe, DirEntry, DirEntrySink, DirNode, DirNodeOps, FileNode, FileNodeOps, Filesystem,
    FilesystemOps, FsResolver, Location, Metadata, MetadataUpdate, Mountpoint, NewNode, Node,
    NodeOps, NodePermission, NodeType, OpenOptions, Reference, StatFs, Timestamp, Vfs, VfsError,
    VfsResult, WeakDirEntry,
};

struct MemNode {
    node_type: NodeType,
    children: BTreeMap<String, usize>,
    data: Vec<u8>,
    mode: NodePermission,
    uid: u32,
    gid: u32,
}

struct MemState {
    nodes: Vec<MemNode>,
    cacheable: bool,
    lookups: usize,
    fail_with: Option<VfsError>,
}

impl MemState {
    fn add(&mut self, dir: usize, name: &str, node_type: NodeType) -> usize {
        let ino = self.nodes.len();
        self.nodes.push(MemNode {
            node_type,
            children: BTreeMap::new(),
            data: Vec::new(),
            mode: NodePermission::default(),
            uid: 0,
            gid: 0,
        });
        self.nodes[dir].children.insert(name.to_string(), ino);
        ino
    }

    fn failing(&self) -> VfsResult<()> {
        match self.fail_with {
            Some(e) => Err(e),
            None => Ok(()),
        }
    }

    fn metadata_of(&self, ino: usize) -> Metadata {
        let node = &self.nodes[ino];
        let zero = Timestamp { secs: 0, nanos: 0 };
        Metadata {
            device: 0,
            inode: ino as u64,
            nlink: 1,
            mode: node.mode,
            node_type: NodeType::RegularFile,
            uid: node.uid,
            gid: node.gid,
            size: node.data.len() as u64,
            block_size: 512,
            blocks: 0,
            atime: zero,
            mtime: zero,
            ctime: zero,
        }
    }

    fn update(&mut self, ino: usize, update: MetadataUpdate) -> VfsResult<()> {
        self.failing()?;
        if let Some((uid, gid)) = update.owner {
            self.nodes[ino].uid = uid;
            self.nodes[ino].gid = gid;
        }
        if let Some(mode) = update.mode {
            self.nodes[ino].mode = mode;
        }
        Ok(())
    }
}

#[derive(Clone)]
struct MemFs(Arc<Mutex<MemState>>);

struct MemDir {
    fs: MemFs,
    ino: usize,
}

struct MemFile {
    fs: MemFs,
    ino: usize,
}

impl MemFs {
    fn new(cacheable: bool) -> MemFs {
        let mut state = MemState { nodes: Vec::new(), cacheable, lookups: 0, fail_with: None };
        state.nodes.push(MemNode {
            node_type: NodeType::Directory,
            children: BTreeMap::new(),
            data: Vec::new(),
            mode: NodePermission::default(),
            uid: 0,
            gid: 0,
        });
        MemFs(Arc::new(Mutex::new(state)))
    }

    fn state(&self) -> MutexGuard<'_, MemState> {
        self.0.lock().unwrap()
    }

    fn add(&self, dir: usize, name: &str, node_type: NodeType) -> usize {
        self.state().add(dir, name, node_type)
    }

    fn set_data(&self, ino: usize, data: &[u8]) {
        self.state().nodes[ino].data = data.to_vec();
    }

    fn lookups(&self) -> usize {
        self.state().lookups
    }

    fn set_cacheable(&self, cacheable: bool) {
        self.state().cacheable = cacheable;
    }

    fn fail_with(&self, error: Option<VfsError>) {
        self.state().fail_with = error;
    }

    fn has(&self, dir: usize, name: &str) -> bool {
        self.state().nodes[dir].children.contains_key(name)
    }

    fn hand_over(&self, ino: usize, node_type: NodeType) -> NewNode<MemDir> {
        if node_type == NodeType::Directory {
            NewNode::Dir(DirNode::new(MemDir { fs: self.clone(), ino }))
        } else {
            NewNode::File(FileNode::new(MemFile { fs: self.clone(), ino }), node_type)
        }
    }
}

impl NodeOps for MemDir {
    type Filesystem = MemFs;

    fn filesystem(&self) -> &MemFs {
        &self.fs
    }

    fn inode(&self) -> u64 {
        self.ino as u64
    }

    fn metadata(&self) -> VfsResult<Metadata> {
        Ok(self.fs.state().metadata_of(self.ino))
    }

    fn update_metadata(&self, update: MetadataUpdate) -> VfsResult<()> {
        self.fs.state().update(self.ino, update)
    }

    fn sync(&self, _data_only: bool) -> VfsResult<()> {
        Ok(())
    }
}

impl NodeOps for MemFile {
    type Filesystem = MemFs;

    fn filesystem(&self) -> &MemFs {
        &self.fs
    }

    fn inode(&self) -> u64 {
        self.ino as u64
    }

    fn metadata(&self) -> VfsResult<Metadata> {
        Ok(self.fs.state().metadata_of(self.ino))
    }

    fn update_metadata(&self, update: MetadataUpdate) -> VfsResult<()> {
        self.fs.state().update(self.ino, update)
    }

    fn sync(&self, _data_only: bool) -> VfsResult<()> {
        Ok(())
    }
}

impl FileNodeOps for MemFile {
    fn read_at(&self, buf: &mut [u8], offset: u64) -> VfsResult<usize> {
        let state = self.fs.state();
        let data = &state.nodes[self.ino].data;
        let start = (offset as usize).min(data.len());
        let n = buf.len().min(data.len() - start);
        buf[..n].copy_from_slice(&data[start..start + n]);
        Ok(n)
    }

    fn write_at(&self, buf: &[u8], offset: u64) -> VfsResult<usize> {
        let mut state = self.fs.state();
        let data = &mut state.nodes[self.ino].data;
        let end = offset as usize + buf.len();
        if data.len() < end {
            data.resize(end, 0);
        }
        data[offset as usize..end].copy_from_slice(buf);
        Ok(buf.len())
    }

    fn append(&self, buf: &[u8]) -> VfsResult<(usize, u64)> {
        let mut state = self.fs.state();
        let data = &mut state.nodes[self.ino].data;
        data.extend_from_slice(buf);
        Ok((buf.len(), data.len() as u64))
    }

    fn set_len(&self, len: u64) -> VfsResult<()> {
        self.fs.state().nodes[self.ino].data.resize(len as usize, 0);
        Ok(())
    }

    fn set_symlink(&self, target: &str) -> VfsResult<()> {
        self.fs.state().nodes[self.ino].data = target.as_bytes().to_vec();
        Ok(())
    }
}

impl DirNodeOps for MemDir {
    type File = MemFile;

    fn read_dir<S: DirEntrySink>(&self, offset: u64, sink: &mut S) -> VfsResult<usize> {
        let mut listing: Vec<(String, u64, NodeType)> = vec![
            (".".to_string(), self.ino as u64, NodeType::Directory),
            ("..".to_string(), self.ino as u64, NodeType::Directory),
        ];
        {
            let state = self.fs.state();
            for (name, ino) in state.nodes[self.ino].children.iter() {
                listing.push((name.clone(), *ino as u64, state.nodes[*ino].node_type));
            }
        }
        let mut count = 0;
        for (i, (name, ino, node_type)) in listing.iter().enumerate().skip(offset as usize) {
            if !sink.accept(name, *ino, *node_type, i as u64 + 1) {
                break;
            }
            count += 1;
        }
        Ok(count)
    }

    fn lookup(&self, name: &str) -> VfsResult<NewNode<MemDir>> {
        let (ino, node_type) = {
            let mut state = self.fs.state();
            state.lookups += 1;
            state.failing()?;
            match state.nodes[self.ino].children.get(name) {
                Some(ino) => (*ino, state.nodes[*ino].node_type),
                None => return Err(VfsError::ENOENT),
            }
        };
        Ok(self.fs.hand_over(ino, node_type))
    }

    fn is_cacheable(&self) -> bool {
        self.fs.state().cacheable
    }

    fn create(
        &self,
        name: &str,
        node_type: NodeType,
        permission: NodePermission,
    ) -> VfsResult<NewNode<MemDir>> {
        let ino = {
            let mut state = self.fs.state();
            state.failing()?;
            if state.nodes[self.ino].children.contains_key(name) {
                return Err(VfsError::EEXIST);
            }
            let ino = state.add(self.ino, name, node_type);
            state.nodes[ino].mode = permission;
            ino
        };
        Ok(self.fs.hand_over(ino, node_type))
    }

    fn link(&self, name: &str, node: &Node<MemDir>) -> VfsResult<NewNode<MemDir>> {
        let ino = match node {
            Node::File(file) => file.inner().ino,
            Node::Dir(dir) => dir.inner().ino,
        };
        let node_type = {
            let mut state = self.fs.state();
            if state.nodes[self.ino].children.contains_key(name) {
                return Err(VfsError::EEXIST);
            }
            state.nodes[self.ino].children.insert(name.to_string(), ino);
            state.nodes[ino].node_type
        };
        Ok(self.fs.hand_over(ino, node_type))
    }

    fn unlink(&self, name: &str) -> VfsResult<()> {
        let mut state = self.fs.state();
        state.failing()?;
        let ino = match state.nodes[self.ino].children.get(name) {
            Some(ino) => *ino,
            None => return Err(VfsError::ENOENT),
        };
        if !state.nodes[ino].children.is_empty() {
            return Err(VfsError::ENOTEMPTY);
        }
        state.nodes[self.ino].children.remove(name);
        Ok(())
    }

    fn rename(&self, src_name: &str, dst_dir: &MemDir, dst_name: &str) -> VfsResult<()> {
        let mut state = self.fs.state();
        state.failing()?;
        let ino = match state.nodes[self.ino].children.remove(src_name) {
            Some(ino) => ino,
            None => return Err(VfsError::ENOENT),
        };
        state.nodes[dst_dir.ino].children.insert(dst_name.to_string(), ino);
        Ok(())
    }
}

impl FilesystemOps for MemFs {
    type Dir = MemDir;

    fn name(&self) -> &str {
        "memfs"
    }

    fn root_dir(&self) -> DirNode<MemDir> {
        DirNode::new(MemDir { fs: self.clone(), ino: 0 })
    }

    fn is_cacheable(&self) -> bool {
        self.state().cacheable
    }

    fn stat(&self) -> VfsResult<StatFs> {
        Ok(StatFs {
            fs_type: 1,
            block_size: 512,
            blocks: 0,
            blocks_free: 0,
            blocks_available: 0,
            file_count: self.state().nodes.len() as u64,
            free_file_count: 0,
            name_length: 255,
            fragment_size: 0,
            mount_flags: 0,
        })
    }
}

struct Names(Vec<String>);

impl DirEntrySink for Names {
    fn accept(&mut self, name: &str, _ino: u64, _node_type: NodeType, _offset: u64) -> bool {
        self.0.push(name.to_string());
        true
    }
}

/// A namespace over one file system, with its root mount and a resolver at the root.
fn namespace(fs: &MemFs) -> (Vfs<MemDir>, Mountpoint, FsResolver) {
    let mut vfs: Vfs<MemDir> = Vfs::new();
    let handle = Filesystem::new(Arc::new(fs.clone()));
    let device = vfs.last_device() + 1;
    let root = Mountpoint::new_root(&mut vfs, &handle, device);
    let resolver = FsResolver::new(root.root_location(&vfs));
    (vfs, root, resolver)
}

fn mount_at(vfs: &mut Vfs<MemDir>, at: Location, fs: &MemFs) -> VfsResult<Mountpoint> {
    let device = vfs.last_device() + 1;
    at.mount(vfs, &Filesystem::new(Arc::new(fs.clone())), device)
}

#[test]
fn cached_entry_is_found_from_its_parent() {
    let fs = MemFs::new(true);
    let a = fs.add(0, "a", NodeType::Directory);
    fs.add(a, "b", NodeType::RegularFile);
    let (mut vfs, _root, resolver) = namespace(&fs);
    let b = resolver.resolve(&mut vfs, "/a/b").unwrap();
    let d = *b.entry();
    let parent = d.parent(&vfs).unwrap();
    assert_eq!(d.name(&vfs), "b");
    assert_eq!(parent.as_dir(&vfs).unwrap().lookup_cache(d.name(&vfs)), Some(d));
    assert_eq!(parent.name(&vfs), "a");
    let top = parent.parent(&vfs).unwrap();
    assert_eq!(top.as_dir(&vfs).unwrap().lookup_cache("a"), Some(parent));
    assert!(top.is_root_of_mount(&vfs));
    assert_eq!(top.parent(&vfs), None);
}

#[test]
fn mount_sits_in_slot_of_its_location() {
    let fs = MemFs::new(true);
    fs.add(0, "mnt", NodeType::Directory);
    let (mut vfs, root, resolver) = namespace(&fs);
    let mnt = resolver.resolve(&mut vfs, "/mnt").unwrap();
    let m = mount_at(&mut vfs, mnt, &MemFs::new(true)).unwrap();
    assert_eq!(m.location(&vfs), Some(mnt));
    assert_eq!(mnt.entry().as_dir(&vfs).unwrap().mountpoint(), Some(m));
    assert!(!m.is_root(&vfs));
    assert!(root.is_root(&vfs));
    assert_eq!(root.location(&vfs), None);
}

#[test]
fn ancestor_is_a_partial_order() {
    let fs = MemFs::new(true);
    let a = fs.add(0, "a", NodeType::Directory);
    let b = fs.add(a, "b", NodeType::Directory);
    fs.add(b, "c", NodeType::RegularFile);
    fs.add(0, "z", NodeType::Directory);
    let (mut vfs, root, resolver) = namespace(&fs);
    let top = *root.root_location(&vfs).entry();
    let ea = *resolver.resolve(&mut vfs, "/a").unwrap().entry();
    let eb = *resolver.resolve(&mut vfs, "/a/b").unwrap().entry();
    let ec = *resolver.resolve(&mut vfs, "/a/b/c").unwrap().entry();
    let ez = *resolver.resolve(&mut vfs, "/z").unwrap().entry();
    for e in [top, ea, eb, ec, ez] {
        assert_eq!(e.is_ancestor_of(&vfs, &e), Ok(true));
    }
    assert_eq!(ea.is_ancestor_of(&vfs, &eb), Ok(true));
    assert_eq!(eb.is_ancestor_of(&vfs, &ec), Ok(true));
    assert_eq!(ea.is_ancestor_of(&vfs, &ec), Ok(true));
    assert_eq!(top.is_ancestor_of(&vfs, &ec), Ok(true));
    assert_eq!(ec.is_ancestor_of(&vfs, &ea), Ok(false));
    assert_eq!(eb.is_ancestor_of(&vfs, &ea), Ok(false));
    assert_eq!(ez.is_ancestor_of(&vfs, &ec), Ok(false));
    assert_eq!(ea.is_ancestor_of(&vfs, &ez), Ok(false));
}

#[test]
fn absolute_path_round_trip() {
    let fs = MemFs::new(true);
    let a = fs.add(0, "a", NodeType::Directory);
    fs.add(a, "b", NodeType::RegularFile);
    fs.add(0, "mnt", NodeType::Directory);
    let fs1 = MemFs::new(true);
    let d = fs1.add(0, "d", NodeType::Directory);
    fs1.add(d, "f", NodeType::RegularFile);
    let (mut vfs, _root, resolver) = namespace(&fs);
    let mnt = resolver.resolve(&mut vfs, "/mnt").unwrap();
    mount_at(&mut vfs, mnt, &fs1).unwrap();
    for path in ["/", "/a", "/a/b", "/mnt", "/mnt/d", "/mnt/d/f"] {
        let loc = resolver.resolve(&mut vfs, path).unwrap();
        let spelled = loc.absolute_path(&vfs).unwrap();
        assert_eq!(spelled, path);
        let before = fs.lookups() + fs1.lookups();
        assert_eq!(resolver.resolve(&mut vfs, &spelled), Ok(loc));
        assert_eq!(fs.lookups() + fs1.lookups(), before);
    }
}

#[test]
fn trailing_dot_and_dotdot() {
    let fs = MemFs::new(true);
    let a = fs.add(0, "a", NodeType::Directory);
    fs.add(a, "b", NodeType::RegularFile);
    fs.add(a, "c", NodeType::Directory);
    let (mut vfs, _root, resolver) = namespace(&fs);
    for path in ["/", "/a", "/a/b", "/a/c", "a", ".", "..", "/a/c/..", "/missing", "/a/b/x"] {
        let plain = resolver.resolve(&mut vfs, path);
        let dotted = resolver.resolve(&mut vfs, &format!("{}/.", path));
        assert_eq!(dotted, plain);
        if let Ok(loc) = plain {
            let up = loc.parent(&vfs).unwrap_or(*resolver.root_dir());
            let above = resolver.resolve(&mut vfs, &format!("{}/..", path));
            assert_eq!(above, Ok(up));
        }
    }
    let root = *resolver.root_dir();
    let dir_a = resolver.resolve(&mut vfs, "/a").unwrap();
    let in_a = resolver.with_current_dir(&vfs, dir_a).unwrap();
    assert_eq!(in_a.resolve(&mut vfs, ""), Ok(dir_a));
    assert_eq!(in_a.resolve(&mut vfs, "/."), Ok(root));
}

#[test]
fn devices_are_unique() {
    let fs = MemFs::new(true);
    fs.add(0, "m1", NodeType::Directory);
    fs.add(0, "m2", NodeType::Directory);
    let (mut vfs, root, resolver) = namespace(&fs);
    let at1 = resolver.resolve(&mut vfs, "/m1").unwrap();
    let at2 = resolver.resolve(&mut vfs, "/m2").unwrap();
    let shared = MemFs::new(true);
    let m1 = mount_at(&mut vfs, at1, &shared).unwrap();
    let m2 = mount_at(&mut vfs, at2, &shared).unwrap();
    assert_eq!(root.device(&vfs), 1);
    assert_eq!(m1.device(&vfs), 2);
    assert_eq!(m2.device(&vfs), 3);
    let in1 = resolver.resolve(&mut vfs, "/m1").unwrap();
    let in2 = resolver.resolve(&mut vfs, "/m2").unwrap();
    assert_eq!(in1.metadata(&vfs).unwrap().device, 2);
    assert_eq!(in2.metadata(&vfs).unwrap().device, 3);
    assert_eq!(at1.metadata(&vfs).unwrap().device, 1);
}

#[test]
fn devices_come_from_one_counter() {
    let mut next_device = 1;
    let mut draw = || {
        let device = next_device;
        next_device += 1;
        device
    };
    let fs = MemFs::new(true);
    fs.add(0, "m", NodeType::Directory);
    let handle = Filesystem::new(Arc::new(fs.clone()));
    let mut first: Vfs<MemDir> = Vfs::new();
    let mut second: Vfs<MemDir> = Vfs::new();
    assert_eq!(first.last_device(), 0);
    let root1 = Mountpoint::new_root(&mut first, &handle, draw());
    let root2 = Mountpoint::new_root(&mut second, &handle, draw());
    let at = FsResolver::new(root1.root_location(&first)).resolve(&mut first, "/m").unwrap();
    let inner = at.mount(&mut first, &handle, draw()).unwrap();
    assert_eq!(root1.device(&first), 1);
    assert_eq!(root2.device(&second), 2);
    assert_eq!(inner.device(&first), 3);
    assert_eq!(first.last_device(), 3);
    assert_eq!(second.last_device(), 2);
    assert_eq!(inner.device(&first), 3);
    assert_eq!(inner.location(&first), Some(at));
    assert!(!inner.is_root(&first));
}

#[test]
fn cacheable_is_asked_at_every_lookup() {
    let fs = MemFs::new(true);
    fs.add(0, "n", NodeType::RegularFile);
    let (mut vfs, root, _resolver) = namespace(&fs);
    let dir = *root.root_location(&vfs).entry();
    let first = DirNode::lookup(&mut vfs, &dir, "n").unwrap();
    assert_eq!(dir.as_dir(&vfs).unwrap().lookup_cache("n"), Some(first));
    fs.set_cacheable(false);
    assert_eq!(dir.as_dir(&vfs).unwrap().lookup_cache("n"), None);
    let second = DirNode::lookup(&mut vfs, &dir, "n").unwrap();
    assert!(!second.ptr_eq(&first));
    assert_eq!(fs.lookups(), 2);
    fs.set_cacheable(true);
    assert_eq!(DirNode::lookup(&mut vfs, &dir, "n"), Ok(first));
    assert_eq!(fs.lookups(), 2);
}

#[test]
fn failed_create_keeps_cache() {
    let fs = MemFs::new(true);
    fs.add(0, "x", NodeType::RegularFile);
    let (mut vfs, root, _resolver) = namespace(&fs);
    let top = root.root_location(&vfs);
    let x = top.lookup_no_follow(&mut vfs, "x").unwrap();
    let count = vfs.entry_count();
    assert_eq!(
        top.create(&mut vfs, "x", NodeType::RegularFile, NodePermission::default()),
        Err(VfsError::EEXIST)
    );
    assert_eq!(
        top.create(&mut vfs, "a/b", NodeType::RegularFile, NodePermission::default()),
        Err(VfsError::EINVAL)
    );
    fs.fail_with(Some(VfsError::EACCES));
    assert_eq!(
        top.create(&mut vfs, "y", NodeType::RegularFile, NodePermission::default()),
        Err(VfsError::EACCES)
    );
    fs.fail_with(None);
    assert_eq!(vfs.entry_count(), count);
    let dir = top.entry().as_dir(&vfs).unwrap();
    assert_eq!(dir.lookup_cache("x"), Some(*x.entry()));
    assert_eq!(dir.lookup_cache("y"), None);
    assert_eq!(dir.lookup_cache("a/b"), None);
}

#[test]
fn failed_unlink_keeps_cache() {
    let fs = MemFs::new(true);
    fs.add(0, "f", NodeType::RegularFile);
    let d = fs.add(0, "d", NodeType::Directory);
    fs.add(d, "inner", NodeType::RegularFile);
    let (mut vfs, root, _resolver) = namespace(&fs);
    let top = root.root_location(&vfs);
    let f = top.lookup_no_follow(&mut vfs, "f").unwrap();
    let dir_d = top.lookup_no_follow(&mut vfs, "d").unwrap();
    let count = vfs.entry_count();
    assert_eq!(top.unlink(&mut vfs, "f", true), Err(VfsError::ENOTDIR));
    assert_eq!(top.unlink(&mut vfs, "d", false), Err(VfsError::EISDIR));
    assert_eq!(top.unlink(&mut vfs, "d", true), Err(VfsError::ENOTEMPTY));
    assert_eq!(top.unlink(&mut vfs, "missing", false), Err(VfsError::ENOENT));
    assert_eq!(top.unlink(&mut vfs, "..", true), Err(VfsError::EINVAL));
    fs.fail_with(Some(VfsError::EIO));
    assert_eq!(top.unlink(&mut vfs, "f", false), Err(VfsError::EIO));
    fs.fail_with(None);
    assert_eq!(vfs.entry_count(), count);
    let dir = top.entry().as_dir(&vfs).unwrap();
    assert_eq!(dir.lookup_cache("f"), Some(*f.entry()));
    assert_eq!(dir.lookup_cache("d"), Some(*dir_d.entry()));
    assert_eq!(f.unlink(&mut vfs, "x", false), Err(VfsError::ENOTDIR));
}

#[test]
fn rename_to_itself_only_drops_the_cached_entry() {
    let fs = MemFs::new(true);
    fs.add(0, "a", NodeType::RegularFile);
    fs.add(0, "other", NodeType::RegularFile);
    let (mut vfs, root, _resolver) = namespace(&fs);
    let top = root.root_location(&vfs);
    top.lookup_no_follow(&mut vfs, "a").unwrap();
    let other = top.lookup_no_follow(&mut vfs, "other").unwrap();
    let count = vfs.entry_count();
    assert_eq!(top.rename(&mut vfs, "a", &top, "a"), Ok(()));
    assert!(fs.has(0, "a"));
    assert_eq!(vfs.entry_count(), count);
    let dir = top.entry().as_dir(&vfs).unwrap();
    assert_eq!(dir.lookup_cache("a"), None);
    assert_eq!(dir.lookup_cache("other"), Some(*other.entry()));
    assert!(top.lookup_no_follow(&mut vfs, "a").is_ok());
}

#[test]
fn lookup_is_memoized() {
    let fs = MemFs::new(true);
    fs.add(0, "n", NodeType::RegularFile);
    let (mut vfs, root, _resolver) = namespace(&fs);
    let dir = *root.root_location(&vfs).entry();
    let first = DirNode::lookup(&mut vfs, &dir, "n").unwrap();
    assert_eq!(fs.lookups(), 1);
    let second = DirNode::lookup(&mut vfs, &dir, "n").unwrap();
    assert!(first.ptr_eq(&second));
    assert_eq!(first.as_ptr(), second.as_ptr());
    assert_eq!(fs.lookups(), 1);
    assert_eq!(DirNode::lookup(&mut vfs, &dir, "missing"), Err(VfsError::ENOENT));
    assert_eq!(DirNode::lookup(&mut vfs, &dir, "missing"), Err(VfsError::ENOENT));
    assert_eq!(fs.lookups(), 3);
}

#[test]
fn uncacheable_directory_asks_the_backend_every_time() {
    let fs = MemFs::new(false);
    fs.add(0, "n", NodeType::RegularFile);
    let (mut vfs, root, _resolver) = namespace(&fs);
    let dir = *root.root_location(&vfs).entry();
    let first = DirNode::lookup(&mut vfs, &dir, "n").unwrap();
    let second = DirNode::lookup(&mut vfs, &dir, "n").unwrap();
    assert_eq!(fs.lookups(), 2);
    assert!(!first.ptr_eq(&second));
    assert_eq!(dir.as_dir(&vfs).unwrap().lookup_cache("n"), None);
    assert!(!dir.as_dir(&vfs).unwrap().inner().is_cacheable());
    assert_eq!(DirNode::insert_cache(&mut vfs, &dir, "n".to_string(), first), None);
    assert_eq!(dir.as_dir(&vfs).unwrap().lookup_cache("n"), None);
}

#[test]
fn insert_cache_replaces_and_returns_previous() {
    let fs = MemFs::new(true);
    fs.add(0, "n", NodeType::RegularFile);
    let (mut vfs, root, _resolver) = namespace(&fs);
    let dir = *root.root_location(&vfs).entry();
    let first = DirNode::lookup(&mut vfs, &dir, "n").unwrap();
    let fresh = DirEntry::new_file(
        &mut vfs,
        FileNode::new(MemFile { fs: fs.clone(), ino: 1 }),
        NodeType::RegularFile,
        Reference::new(Some(dir), "n".to_string()),
    );
    assert_eq!(DirNode::insert_cache(&mut vfs, &dir, "n".to_string(), fresh), Some(first));
    assert_eq!(dir.as_dir(&vfs).unwrap().lookup_cache("n"), Some(fresh));
}
