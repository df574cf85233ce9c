use std::collections::BTreeMap;
use std::sync::{Arc, Mutex, MutexGuard};

use vfs_core::{
    ChildProbe, DirEntry, DirEntrySink, DirNode, DirNodeOps, FileNode, FileNodeOps, Filesystem,
    FilesystemOps, FsResolver, Location, Metadata, MetadataUpdate, Mountpoint, NewNode, Node,
    NodeOps, NodePermission, NodeType, OpenOptions, Reference, StatFs, Timestamp, Vfs, VfsError,
    VfsResult, WeakDirEntry,
};

struct MemNode {
    node_type: NodeType,
    children: BTreeMap<String, usize>,
    data: Vec<u8>,
    mode: NodePermission,
    uid: u32,
    gid: u32,
}

struct MemState {
    nodes: Vec<MemNode>,
    cacheable: bool,
    lookups: usize,
    fail_with: Option<VfsError>,
}

impl MemState {
    fn add(&mut self, dir: usize, name: &str, node_type: NodeType) -> usize {
        let ino = self.nodes.len();
        self.nodes.push(MemNode {
            node_type,
            children: BTreeMap::new(),
            data: Vec::new(),
            mode: NodePermission::default(),
            uid: 0,
            gid: 0,
        });
        self.nodes[dir].children.insert(name.to_string(), ino);
        ino
    }

    fn failing(&self) -> VfsResult<()> {
        match self.fail_with {
            Some(e) => Err(e),
            None => Ok(()),
        }
    }

    fn metadata_of(&self, ino: usize) -> Metadata {
        let node = &self.nodes[ino];
        let zero = Timestamp { secs: 0, nanos: 0 };
        Metadata {
            device: 0,
            inode: ino as u64,
            nlink: 1,
            mode: node.mode,
            node_type: NodeType::RegularFile,
            uid: node.uid,
            gid: node.gid,
            size: node.data.len() as u64,
            block_size: 512,
            blocks: 0,
            atime: zero,
            mtime: zero,
            ctime: zero,
        }
    }

    fn update(&mut self, ino: usize, update: MetadataUpdate) -> VfsResult<()> {
        self.failing()?;
        if let Some((uid, gid)) = update.owner {
            self.nodes[ino].uid = uid;
            self.nodes[ino].gid = gid;
        }
        if let Some(mode) = update.mode {
            self.nodes[ino].mode = mode;
        }
        Ok(())
    }
}

#[derive(Clone)]
struct MemFs(Arc<Mutex<MemState>>);

struct MemDir {
    fs: MemFs,
    ino: usize,
}

struct MemFile {
    fs: MemFs,
    ino: usize,
}

impl MemFs {
    fn new(cacheable: bool) -> MemFs {
        let mut state = MemState { nodes: Vec::new(), cacheable, lookups: 0, fail_with: None };
        state.nodes.push(MemNode {
            node_type: NodeType::Directory,
            children: BTreeMap::new(),
            data: Vec::new(),
            mode: NodePermission::default(),
            uid: 0,
            gid: 0,
        });
        MemFs(Arc::new(Mutex::new(state)))
    }

    fn state(&self) -> MutexGuard<'_, MemState> {
        self.0.lock().unwrap()
    }

    fn add(&self, dir: usize, name: &str, node_type: NodeType) -> usize {
        self.state().add(dir, name, node_type)
    }

    fn set_data(&self, ino: usize, data: &[u8]) {
        self.state().nodes[ino].data = data.to_vec();
    }

    fn lookups(&self) -> usize {
        self.state().lookups
    }

    fn set_cacheable(&self, cacheable: bool) {
        self.state().cacheable = cacheable;
    }

    fn fail_with(&self, error: Option<VfsError>) {
        self.state().fail_with = error;
    }

    fn has(&self, dir: usize, name: &str) -> bool {
        self.state().nodes[dir].children.contains_key(name)
    }

    fn hand_over(&self, ino: usize, node_type: NodeType) -> NewNode<MemDir> {
        if node_type == NodeType::Directory {
            NewNode::Dir(DirNode::new(MemDir { fs: self.clone(), ino }))
        } else {
            NewNode::File(FileNode::new(MemFile { fs: self.clone(), ino }), node_type)
        }
    }
}

impl NodeOps for MemDir {
    type Filesystem = MemFs;

    fn filesystem(&self) -> &MemFs {
        &self.fs
    }

    fn inode(&self) -> u64 {
        self.ino as u64
    }

    fn metadata(&self) -> VfsResult<Metadata> {
        Ok(self.fs.state().metadata_of(self.ino))
    }

    fn update_metadata(&self, update: MetadataUpdate) -> VfsResult<()> {
        self.fs.state().update(self.ino, update)
    }

    fn sync(&self, _data_only: bool) -> VfsResult<()> {
        Ok(())
    }
}

impl NodeOps for MemFile {
    type Filesystem = MemFs;

    fn filesystem(&self) -> &MemFs {
        &self.fs
    }

    fn inode(&self) -> u64 {
        self.ino as u64
    }

    fn metadata(&self) -> VfsResult<Metadata> {
        Ok(self.fs.state().metadata_of(self.ino))
    }

    fn update_metadata(&self, update: MetadataUpdate) -> VfsResult<()> {
        self.fs.state().update(self.ino, update)
    }

    fn sync(&self, _data_only: bool) -> VfsResult<()> {
        Ok(())
    }
}

impl FileNodeOps for MemFile {
    fn read_at(&self, buf: &mut [u8], offset: u64) -> VfsResult<usize> {
        let state = self.fs.state();
        let data = &state.nodes[self.ino].data;
        let start = (offset as usize).min(data.len());
        let n = buf.len().min(data.len() - start);
        buf[..n].copy_from_slice(&data[start..start + n]);
        Ok(n)
    }

    fn write_at(&self, buf: &[u8], offset: u64) -> VfsResult<usize> {
        let mut state = self.fs.state();
        let data = &mut state.nodes[self.ino].data;
        let end = offset as usize + buf.len();
        if data.len() < end {
            data.resize(end, 0);
        }
        data[offset as usize..end].copy_from_slice(buf);
        Ok(buf.len())
    }

    fn append(&self, buf: &[u8]) -> VfsResult<(usize, u64)> {
        let mut state = self.fs.state();
        let data = &mut state.nodes[self.ino].data;
        data.extend_from_slice(buf);
        Ok((buf.len(), data.len() as u64))
    }

    fn set_len(&self, len: u64) -> VfsResult<()> {
        self.fs.state().nodes[self.ino].data.resize(len as usize, 0);
        Ok(())
    }

    fn set_symlink(&self, target: &str) -> VfsResult<()> {
        self.fs.state().nodes[self.ino].data = target.as_bytes().to_vec();
        Ok(())
    }
}

impl DirNodeOps for MemDir {
    type File = MemFile;

    fn read_dir<S: DirEntrySink>(&self, offset: u64, sink: &mut S) -> VfsResult<usize> {
        let mut listing: Vec<(String, u64, NodeType)> = vec![
            (".".to_string(), self.ino as u64, NodeType::Directory),
            ("..".to_string(), self.ino as u64, NodeType::Directory),
        ];
        {
            let state = self.fs.state();
            for (name, ino) in state.nodes[self.ino].children.iter() {
                listing.push((name.clone(), *ino as u64, state.nodes[*ino].node_type));
            }
        }
        let mut count = 0;
        for (i, (name, ino, node_type)) in listing.iter().enumerate().skip(offset as usize) {
            if !sink.accept(name, *ino, *node_type, i as u64 + 1) {
                break;
            }
            count += 1;
        }
        Ok(count)
    }

    fn lookup(&self, name: &str) -> VfsResult<NewNode<MemDir>> {
        let (ino, node_type) = {
            let mut state = self.fs.state();
            state.lookups += 1;
            state.failing()?;
            match state.nodes[self.ino].children.get(name) {
                Some(ino) => (*ino, state.nodes[*ino].node_type),
                None => return Err(VfsError::ENOENT),
            }
        };
        Ok(self.fs.hand_over(ino, node_type))
    }

    fn is_cacheable(&self) -> bool {
        self.fs.state().cacheable
    }

    fn create(
        &self,
        name: &str,
        node_type: NodeType,
        permission: NodePermission,
    ) -> VfsResult<NewNode<MemDir>> {
        let ino = {
            let mut state = self.fs.state();
            state.failing()?;
            if state.nodes[self.ino].children.contains_key(name) {
                return Err(VfsError::EEXIST);
            }
            let ino = state.add(self.ino, name, node_type);
            state.nodes[ino].mode = permission;
            ino
        };
        Ok(self.fs.hand_over(ino, node_type))
    }

    fn link(&self, name: &str, node: &Node<MemDir>) -> VfsResult<NewNode<MemDir>> {
        let ino = match node {
            Node::File(file) => file.inner().ino,
            Node::Dir(dir) => dir.inner().ino,
        };
        let node_type = {
            let mut state = self.fs.state();
            if state.nodes[self.ino].children.contains_key(name) {
                return Err(VfsError::EEXIST);
            }
            state.nodes[self.ino].children.insert(name.to_string(), ino);
            state.nodes[ino].node_type
        };
        Ok(self.fs.hand_over(ino, node_type))
    }

    fn unlink(&self, name: &str) -> VfsResult<()> {
        let mut state = self.fs.state();
        state.failing()?;
        let ino = match state.nodes[self.ino].children.get(name) {
            Some(ino) => *ino,
            None => return Err(VfsError::ENOENT),
        };
        if !state.nodes[ino].children.is_empty() {
            return Err(VfsError::ENOTEMPTY);
        }
        state.nodes[self.ino].children.remove(name);
        Ok(())
    }

    fn rename(&self, src_name: &str, dst_dir: &MemDir, dst_name: &str) -> VfsResult<()> {
        let mut state = self.fs.state();
        state.failing()?;
        let ino = match state.nodes[self.ino].children.remove(src_name) {
            Some(ino) => ino,
            None => return Err(VfsError::ENOENT),
        };
        state.nodes[dst_dir.ino].children.insert(dst_name.to_string(), ino);
        Ok(())
    }
}

impl FilesystemOps for MemFs {
    type Dir = MemDir;

    fn name(&self) -> &str {
        "memfs"
    }

    fn root_dir(&self) -> DirNode<MemDir> {
        DirNode::new(MemDir { fs: self.clone(), ino: 0 })
    }

    fn is_cacheable(&self) -> bool {
        self.state().cacheable
    }

    fn stat(&self) -> VfsResult<StatFs> {
        Ok(StatFs {
            fs_type: 1,
            block_size: 512,
            blocks: 0,
            blocks_free: 0,
            blocks_available: 0,
            file_count: self.state().nodes.len() as u64,
            free_file_count: 0,
            name_length: 255,
            fragment_size: 0,
            mount_flags: 0,
        })
    }
}

struct Names(Vec<String>);

impl DirEntrySink for Names {
    fn accept(&mut self, name: &str, _ino: u64, _node_type: NodeType, _offset: u64) -> bool {
        self.0.push(name.to_string());
        true
    }
}

/// A namespace over one file system, with its root mount and a resolver at the root.
fn namespace(fs: &MemFs) -> (Vfs<MemDir>, Mountpoint, FsResolver) {
    let mut vfs: Vfs<MemDir> = Vfs::new();
    let handle = Filesystem::new(Arc::new(fs.clone()));
    let device = vfs.last_device() + 1;
    let root = Mountpoint::new_root(&mut vfs, &handle, device);
    let resolver = FsResolver::new(root.root_location(&vfs));
    (vfs, root, resolver)
}

fn mount_at(vfs: &mut Vfs<MemDir>, at: Location, fs: &MemFs) -> VfsResult<Mountpoint> {
    let device = vfs.last_device() + 1;
    at.mount(vfs, &Filesystem::new(Arc::new(fs.clone())), device)
}

#[test]
fn basic_walk() {
    let fs = MemFs::new(true);
    let a = fs.add(0, "a", NodeType::Directory);
    fs.add(a, "b", NodeType::RegularFile);
    let (mut vfs, _root, resolver) = namespace(&fs);
    let loc = resolver.resolve(&mut vfs, "/a/b").unwrap();
    assert_eq!(loc.name(&vfs), "b");
    assert!(loc.is_file(&vfs));
    assert!(!loc.is_dir(&vfs));
    assert_eq!(loc.node_type(&vfs), NodeType::RegularFile);
    assert_eq!(loc.absolute_path(&vfs).unwrap(), "/a/b");
    assert_eq!(loc.entry().absolute_path(&vfs).unwrap(), "/a/b");
    let dir = resolver.resolve(&mut vfs, "/a").unwrap();
    assert_eq!(loc.parent(&vfs), Some(dir));
    assert_eq!(resolver.resolve(&mut vfs, "a/b"), Ok(loc));
    assert_eq!(resolver.resolve(&mut vfs, "/a/missing"), Err(VfsError::ENOENT));
    assert_eq!(resolver.resolve(&mut vfs, "/a/b/c"), Err(VfsError::ENOTDIR));
}

#[test]
fn root_resolves_to_itself() {
    let fs = MemFs::new(true);
    let (mut vfs, root, resolver) = namespace(&fs);
    let at = root.root_location(&vfs);
    assert_eq!(resolver.resolve(&mut vfs, "/"), Ok(at));
    assert_eq!(resolver.resolve(&mut vfs, ""), Ok(at));
    assert_eq!(resolver.resolve(&mut vfs, "."), Ok(at));
    assert_eq!(resolver.resolve(&mut vfs, ".."), Ok(at));
    assert!(at.is_root(&vfs));
    assert!(at.is_root_of_mount(&vfs));
    assert_eq!(at.name(&vfs), "");
    assert_eq!(at.parent(&vfs), None);
    assert_eq!(at.absolute_path(&vfs).unwrap(), "/");
    assert_eq!(at.lookup_no_follow(&mut vfs, ".."), Ok(at));
    assert_eq!(at.lookup_no_follow(&mut vfs, "."), Ok(at));
}

#[test]
fn mount_stacking() {
    let fs = MemFs::new(true);
    fs.add(0, "mnt", NodeType::Directory);
    let fs1 = MemFs::new(true);
    fs1.add(0, "one", NodeType::RegularFile);
    let fs2 = MemFs::new(true);
    fs2.add(0, "two", NodeType::RegularFile);
    let (mut vfs, root, resolver) = namespace(&fs);

    let mnt = resolver.resolve(&mut vfs, "/mnt").unwrap();
    assert!(!mnt.is_root_of_mount(&vfs));
    assert!(!mnt.is_mountpoint(&vfs));
    let m1 = mount_at(&mut vfs, mnt, &fs1).unwrap();
    assert!(mnt.is_mountpoint(&vfs));

    let at = resolver.resolve(&mut vfs, "/mnt").unwrap();
    assert!(at.is_root_of_mount(&vfs));
    assert!(!at.is_root(&vfs));
    assert_eq!(at.name(&vfs), "mnt");
    assert_eq!(*at.mountpoint(), m1);
    assert_eq!(at, m1.root_location(&vfs));
    assert!(resolver.resolve(&mut vfs, "/mnt/one").is_ok());

    let m2 = mount_at(&mut vfs, at, &fs2).unwrap();
    let top = resolver.resolve(&mut vfs, "/mnt").unwrap();
    assert_eq!(*top.mountpoint(), m2);
    assert_eq!(top, m2.root_location(&vfs));
    assert_eq!(top.name(&vfs), "mnt");
    assert_eq!(top.absolute_path(&vfs).unwrap(), "/mnt");
    let two = resolver.resolve(&mut vfs, "/mnt/two").unwrap();
    assert_eq!(two.absolute_path(&vfs).unwrap(), "/mnt/two");
    assert_eq!(resolver.resolve(&mut vfs, "/mnt/one"), Err(VfsError::ENOENT));

    let key1 = mnt.entry().key(&vfs);
    assert_eq!(root.child(&vfs, &key1), Some(m1));
    let key2 = at.entry().key(&vfs);
    assert_eq!(m1.child(&vfs, &key2), Some(m2));
    assert_eq!(root.child(&vfs, &key2), None);

    assert_eq!(mount_at(&mut vfs, mnt, &fs2), Err(VfsError::EBUSY));
    assert_eq!(top.parent(&vfs), Some(root.root_location(&vfs)));
    assert_eq!(resolver.resolve(&mut vfs, "/mnt/.."), Ok(root.root_location(&vfs)));
}

#[test]
fn cross_mount_rename() {
    let fs = MemFs::new(true);
    fs.add(0, "a", NodeType::Directory);
    fs.add(0, "b", NodeType::Directory);
    let fs1 = MemFs::new(true);
    fs1.add(0, "x", NodeType::RegularFile);
    let fs2 = MemFs::new(true);
    let (mut vfs, _root, resolver) = namespace(&fs);
    let a = resolver.resolve(&mut vfs, "/a").unwrap();
    mount_at(&mut vfs, a, &fs1).unwrap();
    let b = resolver.resolve(&mut vfs, "/b").unwrap();
    mount_at(&mut vfs, b, &fs2).unwrap();
    let a = resolver.resolve(&mut vfs, "/a").unwrap();
    let b = resolver.resolve(&mut vfs, "/b").unwrap();

    assert_eq!(a.rename(&mut vfs, "x", &b, "y"), Err(VfsError::EXDEV));
    assert!(fs1.has(0, "x"));

    let x = a.lookup_no_follow(&mut vfs, "x").unwrap();
    assert_eq!(a.entry().as_dir(&vfs).unwrap().lookup_cache("x"), Some(*x.entry()));
    assert_eq!(a.rename(&mut vfs, "x", &a, "y"), Ok(()));
    assert_eq!(a.entry().as_dir(&vfs).unwrap().lookup_cache("x"), None);
    assert_eq!(a.entry().as_dir(&vfs).unwrap().lookup_cache("y"), None);
    assert!(!fs1.has(0, "x"));
    assert!(fs1.has(0, "y"));
    assert_eq!(resolver.resolve(&mut vfs, "/a/x"), Err(VfsError::ENOENT));
    assert!(resolver.resolve(&mut vfs, "/a/y").is_ok());
}

#[test]
fn dot_dot_at_root() {
    let fs = MemFs::new(true);
    let sandbox = fs.add(0, "sandbox", NodeType::Directory);
    fs.add(sandbox, "inner", NodeType::Directory);
    let (mut vfs, _root, resolver) = namespace(&fs);
    let pinned_at = resolver.resolve(&mut vfs, "/sandbox").unwrap();
    let pinned = FsResolver::new(pinned_at);
    assert_eq!(pinned.resolve(&mut vfs, "/"), Ok(pinned_at));
    assert_eq!(pinned.resolve(&mut vfs, ".."), Ok(pinned_at));
    assert_eq!(pinned.resolve(&mut vfs, "../.."), Ok(pinned_at));
    assert_eq!(pinned.resolve(&mut vfs, "inner/../.."), Ok(pinned_at));
    let inner = pinned.resolve(&mut vfs, "/inner").unwrap();
    assert_eq!(inner.absolute_path(&vfs).unwrap(), "/sandbox/inner");
    assert_eq!(pinned.resolve(&mut vfs, "inner/.."), Ok(pinned_at));
}

#[test]
fn rename_into_descendant() {
    let fs = MemFs::new(true);
    let a = fs.add(0, "a", NodeType::Directory);
    fs.add(a, "b", NodeType::Directory);
    let (mut vfs, root, resolver) = namespace(&fs);
    let top = root.root_location(&vfs);
    let dir_a = resolver.resolve(&mut vfs, "/a").unwrap();
    let dir_b = resolver.resolve(&mut vfs, "/a/b").unwrap();
    assert_eq!(top.rename(&mut vfs, "a", &dir_a, "b"), Err(VfsError::EINVAL));
    assert_eq!(top.rename(&mut vfs, "a", &dir_b, "c"), Err(VfsError::EINVAL));
    assert!(fs.has(0, "a"));
}

#[test]
fn rename_of_a_file_into_a_subdirectory() {
    let fs = MemFs::new(true);
    fs.add(0, "x", NodeType::RegularFile);
    let a = fs.add(0, "a", NodeType::Directory);
    fs.add(a, "sub", NodeType::Directory);
    fs.add(0, "d", NodeType::Directory);
    let (mut vfs, root, resolver) = namespace(&fs);
    let top = root.root_location(&vfs);
    let dir_a = resolver.resolve(&mut vfs, "/a").unwrap();
    let dir_sub = resolver.resolve(&mut vfs, "/a/sub").unwrap();
    assert_eq!(top.rename(&mut vfs, "x", &dir_a, "y"), Ok(()));
    assert!(fs.has(a, "y"));
    assert!(!fs.has(0, "x"));
    assert_eq!(top.rename(&mut vfs, "d", &dir_sub, "d"), Ok(()));
    assert_eq!(dir_a.rename(&mut vfs, "y", &top, "x"), Ok(()));
    assert!(fs.has(0, "x"));
    assert_eq!(dir_a.rename(&mut vfs, "sub", &dir_sub, "inner"), Err(VfsError::EINVAL));
    assert_eq!(top.rename(&mut vfs, "a", &dir_sub, "a"), Err(VfsError::EINVAL));
    assert!(fs.has(0, "a"));
}

#[test]
fn unlink_non_empty_dir() {
    let fs = MemFs::new(true);
    let a = fs.add(0, "a", NodeType::Directory);
    fs.add(a, "c", NodeType::RegularFile);
    let (mut vfs, root, resolver) = namespace(&fs);
    let top = root.root_location(&vfs);
    assert_eq!(top.unlink(&mut vfs, "a", true), Err(VfsError::ENOTEMPTY));
    let dir_a = resolver.resolve(&mut vfs, "/a").unwrap();
    let mut names = Names(Vec::new());
    assert_eq!(dir_a.read_dir(&vfs, 0, &mut names), Ok(3));
    assert_eq!(names.0, vec![".".to_string(), "..".to_string(), "c".to_string()]);
    assert_eq!(dir_a.entry().as_dir(&vfs).unwrap().has_children(), Ok(true));
    assert_eq!(dir_a.unlink(&mut vfs, "c", false), Ok(()));
    assert_eq!(dir_a.entry().as_dir(&vfs).unwrap().has_children(), Ok(false));
    assert_eq!(top.unlink(&mut vfs, "a", true), Ok(()));
    assert_eq!(resolver.resolve(&mut vfs, "/a"), Err(VfsError::ENOENT));
}

#[test]
fn unmount_clears_slot_and_cache() {
    let fs = MemFs::new(true);
    fs.add(0, "mnt", NodeType::Directory);
    let fs1 = MemFs::new(true);
    let d = fs1.add(0, "d", NodeType::Directory);
    fs1.add(d, "f", NodeType::RegularFile);
    let (mut vfs, _root, resolver) = namespace(&fs);
    let mnt = resolver.resolve(&mut vfs, "/mnt").unwrap();
    assert_eq!(mnt.unmount(&mut vfs), Err(VfsError::EINVAL));
    assert_eq!(resolver.root_dir().unmount(&mut vfs), Err(VfsError::EINVAL));
    mount_at(&mut vfs, mnt, &fs1).unwrap();
    let top = resolver.resolve(&mut vfs, "/mnt").unwrap();
    let dir_d = resolver.resolve(&mut vfs, "/mnt/d").unwrap();
    resolver.resolve(&mut vfs, "/mnt/d/f").unwrap();
    assert!(top.entry().as_dir(&vfs).unwrap().lookup_cache("d").is_some());
    assert!(dir_d.entry().as_dir(&vfs).unwrap().lookup_cache("f").is_some());
    assert_eq!(top.unmount(&mut vfs), Ok(()));
    assert!(!mnt.is_mountpoint(&vfs));
    assert_eq!(top.entry().as_dir(&vfs).unwrap().lookup_cache("d"), None);
    assert_eq!(dir_d.entry().as_dir(&vfs).unwrap().lookup_cache("f"), None);
    assert_eq!(resolver.resolve(&mut vfs, "/mnt"), Ok(mnt));
    assert!(mount_at(&mut vfs, mnt, &fs1).is_ok());
}

#[test]
fn mount_on_file_is_refused() {
    let fs = MemFs::new(true);
    fs.add(0, "f", NodeType::RegularFile);
    let (mut vfs, _root, resolver) = namespace(&fs);
    let f = resolver.resolve(&mut vfs, "/f").unwrap();
    assert_eq!(mount_at(&mut vfs, f, &MemFs::new(true)), Err(VfsError::ENOTDIR));
}
