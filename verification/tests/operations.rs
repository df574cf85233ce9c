use std::collections::BTreeMap;
use std::sync::{Arc, Mutex, MutexGuard};

use vfs_core::{
    ChildProbe, DirEntry, DirEntrySink, DirNode, DirNodeOps, FileNode, FileNodeOps, Filesystem,
    FilesystemOps, FsResolver, Location, Metadata, MetadataUpdate, Mountpoint, NewNode, Node,
    NodeOps, NodePermission, NodeType, OpenOptions, Reference, StatFs, Timestamp, Vfs, VfsError,
    VfsResult, WeakDirEntry,
};

struct MemNode {
    node_type: NodeType,
    children: BTreeMap<String, usize>,
    data: Vec<u8>,
    mode: NodePermission,
    uid: u32,
    gid: u32,
}

struct MemState {
    nodes: Vec<MemNode>,
    cacheable: bool,
    lookups: usize,
    fail_with: Option<VfsError>,
}

impl MemState {
    fn add(&mut self, dir: usize, name: &str, node_type: NodeType) -> usize {
        let ino = self.nodes.len();
        self.nodes.push(MemNode {
            node_type,
            children: BTreeMap::new(),
            data: Vec::new(),
            mode: NodePermission::default(),
            uid: 0,
            gid: 0,
        });
        self.nodes[dir].children.insert(name.to_string(), ino);
        ino
    }

    fn failing(&self) -> VfsResult<()> {
        match self.fail_with {
            Some(e) => Err(e),
            None => Ok(()),
        }
    }

    fn metadata_of(&self, ino: usize) -> Metadata {
        let node = &self.nodes[ino];
        let zero = Timestamp { secs: 0, nanos: 0 };
        Metadata {
            device: 0,
            inode: ino as u64,
            nlink: 1,
            mode: node.mode,
            node_type: NodeType::RegularFile,
            uid: node.uid,
            gid: node.gid,
            size: node.data.len() as u64,
            block_size: 512,
            blocks: 0,
            atime: zero,
            mtime: zero,
            ctime: zero,
        }
    }

    fn update(&mut self, ino: usize, update: MetadataUpdate) -> VfsResult<()> {
        self.failing()?;
        if let Some((uid, gid)) = update.owner {
            self.nodes[ino].uid = uid;
            self.nodes[ino].gid = gid;
        }
        if let Some(mode) = update.mode {
            self.nodes[ino].mode = mode;
        }
        Ok(())
    }
}

#[derive(Clone)]
struct MemFs(Arc<Mutex<MemState>>);

struct MemDir {
    fs: MemFs,
    ino: usize,
}

struct MemFile {
    fs: MemFs,
    ino: usize,
}

impl MemFs {
    fn new(cacheable: bool) -> MemFs {
        let mut state = MemState { nodes: Vec::new(), cacheable, lookups: 0, fail_with: None };
        state.nodes.push(MemNode {
            node_type: NodeType::Directory,
            children: BTreeMap::new(),
            data: Vec::new(),
            mode: NodePermission::default(),
            uid: 0,
            gid: 0,
        });
        MemFs(Arc::new(Mutex::new(state)))
    }

    fn state(&self) -> MutexGuard<'_, MemState> {
        self.0.lock().unwrap()
    }

    fn add(&self, dir: usize, name: &str, node_type: NodeType) -> usize {
        self.state().add(dir, name, node_type)
    }

    fn set_data(&self, ino: usize, data: &[u8]) {
        self.state().nodes[ino].data = data.to_vec();
    }

    fn lookups(&self) -> usize {
        self.state().lookups
    }

    fn set_cacheable(&self, cacheable: bool) {
        self.state().cacheable = cacheable;
    }

    fn fail_with(&self, error: Option<VfsError>) {
        self.state().fail_with = error;
    }

    fn has(&self, dir: usize, name: &str) -> bool {
        self.state().nodes[dir].children.contains_key(name)
    }

    fn hand_over(&self, ino: usize, node_type: NodeType) -> NewNode<MemDir> {
        if node_type == NodeType::Directory {
            NewNode::Dir(DirNode::new(MemDir { fs: self.clone(), ino }))
        } else {
            NewNode::File(FileNode::new(MemFile { fs: self.clone(), ino }), node_type)
        }
    }
}

impl NodeOps for MemDir {
    type Filesystem = MemFs;

    fn filesystem(&self) -> &MemFs {
        &self.fs
    }

    fn inode(&self) -> u64 {
        self.ino as u64
    }

    fn metadata(&self) -> VfsResult<Metadata> {
        Ok(self.fs.state().metadata_of(self.ino))
    }

    fn update_metadata(&self, update: MetadataUpdate) -> VfsResult<()> {
        self.fs.state().update(self.ino, update)
    }

    fn sync(&self, _data_only: bool) -> VfsResult<()> {
        Ok(())
    }
}

impl NodeOps for MemFile {
    type Filesystem = MemFs;

    fn filesystem(&self) -> &MemFs {
        &self.fs
    }

    fn inode(&self) -> u64 {
        self.ino as u64
    }

    fn metadata(&self) -> VfsResult<Metadata> {
        Ok(self.fs.state().metadata_of(self.ino))
    }

    fn update_metadata(&self, update: MetadataUpdate) -> VfsResult<()> {
        self.fs.state().update(self.ino, update)
    }

    fn sync(&self, _data_only: bool) -> VfsResult<()> {
        Ok(())
    }
}

impl FileNodeOps for MemFile {
    fn read_at(&self, buf: &mut [u8], offset: u64) -> VfsResult<usize> {
        let state = self.fs.state();
        let data = &state.nodes[self.ino].data;
        let start = (offset as usize).min(data.len());
        let n = buf.len().min(data.len() - start);
        buf[..n].copy_from_slice(&data[start..start + n]);
        Ok(n)
    }

    fn write_at(&self, buf: &[u8], offset: u64) -> VfsResult<usize> {
        let mut state = self.fs.state();
        let data = &mut state.nodes[self.ino].data;
        let end = offset as usize + buf.len();
        if data.len() < end {
            data.resize(end, 0);
        }
        data[offset as usize..end].copy_from_slice(buf);
        Ok(buf.len())
    }

    fn append(&self, buf: &[u8]) -> VfsResult<(usize, u64)> {
        let mut state = self.fs.state();
        let data = &mut state.nodes[self.ino].data;
        data.extend_from_slice(buf);
        Ok((buf.len(), data.len() as u64))
    }

    fn set_len(&self, len: u64) -> VfsResult<()> {
        self.fs.state().nodes[self.ino].data.resize(len as usize, 0);
        Ok(())
    }

    fn set_symlink(&self, target: &str) -> VfsResult<()> {
        self.fs.state().nodes[self.ino].data = target.as_bytes().to_vec();
        Ok(())
    }
}

impl DirNodeOps for MemDir {
    type File = MemFile;

    fn read_dir<S: DirEntrySink>(&self, offset: u64, sink: &mut S) -> VfsResult<usize> {
        let mut listing: Vec<(String, u64, NodeType)> = vec![
            (".".to_string(), self.ino as u64, NodeType::Directory),
            ("..".to_string(), self.ino as u64, NodeType::Directory),
        ];
        {
            let state = self.fs.state();
            for (name, ino) in state.nodes[self.ino].children.iter() {
                listing.push((name.clone(), *ino as u64, state.nodes[*ino].node_type));
            }
        }
        let mut count = 0;
        for (i, (name, ino, node_type)) in listing.iter().enumerate().skip(offset as usize) {
            if !sink.accept(name, *ino, *node_type, i as u64 + 1) {
                break;
            }
            count += 1;
        }
        Ok(count)
    }

    fn lookup(&self, name: &str) -> VfsResult<NewNode<MemDir>> {
        let (ino, node_type) = {
            let mut state = self.fs.state();
            state.lookups += 1;
            state.failing()?;
            match state.nodes[self.ino].children.get(name) {
                Some(ino) => (*ino, state.nodes[*ino].node_type),
                None => return Err(VfsError::ENOENT),
            }
        };
        Ok(self.fs.hand_over(ino, node_type))
    }

    fn is_cacheable(&self) -> bool {
        self.fs.state().cacheable
    }

    fn create(
        &self,
        name: &str,
        node_type: NodeType,
        permission: NodePermission,
    ) -> VfsResult<NewNode<MemDir>> {
        let ino = {
            let mut state = self.fs.state();
            state.failing()?;
            if state.nodes[self.ino].children.contains_key(name) {
                return Err(VfsError::EEXIST);
            }
            let ino = state.add(self.ino, name, node_type);
            state.nodes[ino].mode = permission;
            ino
        };
        Ok(self.fs.hand_over(ino, node_type))
    }

    fn link(&self, name: &str, node: &Node<MemDir>) -> VfsResult<NewNode<MemDir>> {
        let ino = match node {
            Node::File(file) => file.inner().ino,
            Node::Dir(dir) => dir.inner().ino,
        };
        let node_type = {
            let mut state = self.fs.state();
            if state.nodes[self.ino].children.contains_key(name) {
                return Err(VfsError::EEXIST);
            }
            state.nodes[self.ino].children.insert(name.to_string(), ino);
            state.nodes[ino].node_type
        };
        Ok(self.fs.hand_over(ino, node_type))
    }

    fn unlink(&self, name: &str) -> VfsResult<()> {
        let mut state = self.fs.state();
        state.failing()?;
        let ino = match state.nodes[self.ino].children.get(name) {
            Some(ino) => *ino,
            None => return Err(VfsError::ENOENT),
        };
        if !state.nodes[ino].children.is_empty() {
            return Err(VfsError::ENOTEMPTY);
        }
        state.nodes[self.ino].children.remove(name);
        Ok(())
    }

    fn rename(&self, src_name: &str, dst_dir: &MemDir, dst_name: &str) -> VfsResult<()> {
        let mut state = self.fs.state();
        state.failing()?;
        let ino = match state.nodes[self.ino].children.remove(src_name) {
            Some(ino) => ino,
            None => return Err(VfsError::ENOENT),
        };
        state.nodes[dst_dir.ino].children.insert(dst_name.to_string(), ino);
        Ok(())
    }
}

impl FilesystemOps for MemFs {
    type Dir = MemDir;

    fn name(&self) -> &str {
        "memfs"
    }

    fn root_dir(&self) -> DirNode<MemDir> {
        DirNode::new(MemDir { fs: self.clone(), ino: 0 })
    }

    fn is_cacheable(&self) -> bool {
        self.state().cacheable
    }

    fn stat(&self) -> VfsResult<StatFs> {
        Ok(StatFs {
            fs_type: 1,
            block_size: 512,
            blocks: 0,
            blocks_free: 0,
            blocks_available: 0,
            file_count: self.state().nodes.len() as u64,
            free_file_count: 0,
            name_length: 255,
            fragment_size: 0,
            mount_flags: 0,
        })
    }
}

struct Names(Vec<String>);

impl DirEntrySink for Names {
    fn accept(&mut self, name: &str, _ino: u64, _node_type: NodeType, _offset: u64) -> bool {
        self.0.push(name.to_string());
        true
    }
}

/// A namespace over one file system, with its root mount and a resolver at the root.
fn namespace(fs: &MemFs) -> (Vfs<MemDir>, Mountpoint, FsResolver) {
    let mut vfs: Vfs<MemDir> = Vfs::new();
    let handle = Filesystem::new(Arc::new(fs.clone()));
    let device = vfs.last_device() + 1;
    let root = Mountpoint::new_root(&mut vfs, &handle, device);
    let resolver = FsResolver::new(root.root_location(&vfs));
    (vfs, root, resolver)
}

fn mount_at(vfs: &mut Vfs<MemDir>, at: Location, fs: &MemFs) -> VfsResult<Mountpoint> {
    let device = vfs.last_device() + 1;
    at.mount(vfs, &Filesystem::new(Arc::new(fs.clone())), device)
}
use vfs_core::entry::{decode_link, with_node_type};
use vfs_core::mount::with_device;
use vfs_core::ops::reported_size;
use vfs_core::path::build_absolute_path;

#[test]
fn settle_lookup_locked_enters_and_caches() {
    let fs = MemFs::new(true);
    let (mut vfs, root, _resolver) = namespace(&fs);
    let dir = *root.root_location(&vfs).entry();
    let before = vfs.entry_count();
    assert_eq!(
        DirNode::settle_lookup_locked(&mut vfs, &dir, "n".to_string(), Err(VfsError::EIO), true),
        Err(VfsError::EIO)
    );
    assert_eq!(vfs.entry_count(), before);
    assert_eq!(dir.as_dir(&vfs).unwrap().lookup_cache("n"), None);
    let node = NewNode::File(FileNode::new(MemFile { fs: fs.clone(), ino: 7 }), NodeType::Symlink);
    let e = DirNode::settle_lookup_locked(&mut vfs, &dir, "n".to_string(), Ok(node), true).unwrap();
    assert_eq!(e.as_ptr(), before + 1);
    assert_eq!(vfs.entry_count(), before + 1);
    assert_eq!(e.parent(&vfs), Some(dir));
    assert_eq!(e.name(&vfs), "n");
    assert_eq!(e.node_type(&vfs), NodeType::Symlink);
    assert!(e.is_file(&vfs));
    assert_eq!(e.inode(&vfs), 7);
    assert_eq!(dir.as_dir(&vfs).unwrap().lookup_cache("n"), Some(e));
    let other = NewNode::File(FileNode::new(MemFile { fs: fs.clone(), ino: 8 }), NodeType::Fifo);
    assert_eq!(DirNode::settle_lookup_locked(&mut vfs, &dir, "n".to_string(), Ok(other), true), Ok(e));
    assert_eq!(DirNode::settle_lookup(&mut vfs, &dir, "n".to_string(), true, Err(VfsError::EIO), true), Ok(e));
    assert_eq!(vfs.entry_count(), before + 1);
}

#[test]
fn settle_lookup_enters_without_caching_where_not_cacheable() {
    let fs = MemFs::new(false);
    let (mut vfs, root, _resolver) = namespace(&fs);
    let dir = *root.root_location(&vfs).entry();
    let node = NewNode::Dir(DirNode::new(MemDir { fs: fs.clone(), ino: 0 }));
    let e = DirNode::settle_lookup(&mut vfs, &dir, "sub".to_string(), false, Ok(node), false).unwrap();
    assert!(e.is_dir(&vfs));
    assert_eq!(e.node_type(&vfs), NodeType::Directory);
    assert_eq!(e.parent(&vfs), Some(dir));
    assert_eq!(
        DirNode::settle_lookup(&mut vfs, &dir, "x".to_string(), false, Err(VfsError::Other(28)), false),
        Err(VfsError::Other(28))
    );
}

#[test]
fn create_locked_caches_even_when_not_cacheable() {
    let fs = MemFs::new(false);
    let (mut vfs, root, _resolver) = namespace(&fs);
    let top = root.root_location(&vfs);
    let made = top
        .create(&mut vfs, "new", NodeType::RegularFile, NodePermission::from_bits_truncate(0o644))
        .unwrap();
    assert!(fs.has(0, "new"));
    assert_eq!(made.name(&vfs), "new");
    assert_eq!(*made.mountpoint(), *top.mountpoint());
    assert_eq!(top.entry().as_dir(&vfs).unwrap().lookup_cache("new"), None);
    let dir = *top.entry();
    let node = NewNode::File(FileNode::new(MemFile { fs: fs.clone(), ino: 1 }), NodeType::RegularFile);
    let e = DirNode::create_locked(&mut vfs, &dir, "again".to_string(), Ok(node)).unwrap();
    assert_eq!(e.name(&vfs), "again");
    assert_eq!(
        DirNode::create_locked(&mut vfs, &dir, "bad".to_string(), Err(VfsError::EEXIST)),
        Err(VfsError::EEXIST)
    );
}

#[test]
fn settle_unlink_forgets_on_success_only() {
    let fs = MemFs::new(true);
    let d = fs.add(0, "d", NodeType::Directory);
    fs.add(d, "f", NodeType::RegularFile);
    let (mut vfs, root, resolver) = namespace(&fs);
    let dir = *root.root_location(&vfs).entry();
    let sub = *resolver.resolve(&mut vfs, "/d").unwrap().entry();
    resolver.resolve(&mut vfs, "/d/f").unwrap();
    assert_eq!(DirNode::settle_unlink(&mut vfs, &dir, "d", Err(VfsError::EBUSY)), Err(VfsError::EBUSY));
    assert_eq!(dir.as_dir(&vfs).unwrap().lookup_cache("d"), Some(sub));
    assert!(sub.as_dir(&vfs).unwrap().lookup_cache("f").is_some());
    assert_eq!(DirNode::settle_unlink(&mut vfs, &dir, "d", Ok(())), Ok(()));
    assert_eq!(dir.as_dir(&vfs).unwrap().lookup_cache("d"), None);
    assert_eq!(sub.as_dir(&vfs).unwrap().lookup_cache("f"), None);
}

#[test]
fn settle_rename_forgets_both_names() {
    let fs = MemFs::new(true);
    fs.add(0, "a", NodeType::RegularFile);
    let d = fs.add(0, "d", NodeType::Directory);
    fs.add(d, "b", NodeType::RegularFile);
    let (mut vfs, root, resolver) = namespace(&fs);
    let dir = *root.root_location(&vfs).entry();
    let sub = *resolver.resolve(&mut vfs, "/d").unwrap().entry();
    resolver.resolve(&mut vfs, "/a").unwrap();
    resolver.resolve(&mut vfs, "/d/b").unwrap();
    assert_eq!(
        DirNode::settle_rename(&mut vfs, &dir, "a", &sub, "b", Err(VfsError::EIO)),
        Err(VfsError::EIO)
    );
    assert!(dir.as_dir(&vfs).unwrap().lookup_cache("a").is_some());
    assert!(sub.as_dir(&vfs).unwrap().lookup_cache("b").is_some());
    assert_eq!(DirNode::settle_rename(&mut vfs, &dir, "a", &sub, "b", Ok(())), Ok(()));
    assert_eq!(dir.as_dir(&vfs).unwrap().lookup_cache("a"), None);
    assert_eq!(sub.as_dir(&vfs).unwrap().lookup_cache("b"), None);
    assert_eq!(dir.as_dir(&vfs).unwrap().lookup_cache("d"), Some(sub));
}

#[test]
fn rename_checks_what_it_replaces() {
    let dir = NodeType::Directory;
    let file = NodeType::RegularFile;
    assert_eq!(DirNode::<MemDir>::check_rename(dir, true, dir, Ok(true)), Err(VfsError::ENOTEMPTY));
    assert_eq!(DirNode::<MemDir>::check_rename(dir, true, dir, Ok(false)), Ok(()));
    assert_eq!(DirNode::<MemDir>::check_rename(dir, true, dir, Err(VfsError::EIO)), Err(VfsError::EIO));
    assert_eq!(DirNode::<MemDir>::check_rename(dir, false, file, Ok(true)), Ok(()));
    assert_eq!(DirNode::<MemDir>::check_rename(file, true, dir, Ok(false)), Err(VfsError::EISDIR));
    assert_eq!(DirNode::<MemDir>::check_rename(file, false, file, Ok(true)), Ok(()));
    assert_eq!(DirNode::<MemDir>::check_unlink(true, false), Err(VfsError::EISDIR));
    assert_eq!(DirNode::<MemDir>::check_unlink(false, true), Err(VfsError::ENOTDIR));
    assert_eq!(DirNode::<MemDir>::check_unlink(true, true), Ok(()));
    assert_eq!(DirNode::<MemDir>::check_unlink(false, false), Ok(()));
}

#[test]
fn rename_over_directories() {
    let fs = MemFs::new(true);
    fs.add(0, "src", NodeType::Directory);
    let full = fs.add(0, "full", NodeType::Directory);
    fs.add(full, "x", NodeType::RegularFile);
    fs.add(0, "empty", NodeType::Directory);
    fs.add(0, "f", NodeType::RegularFile);
    let (mut vfs, root, _resolver) = namespace(&fs);
    let top = root.root_location(&vfs);
    assert_eq!(top.rename(&mut vfs, "src", &top, "full"), Err(VfsError::ENOTEMPTY));
    assert_eq!(top.rename(&mut vfs, "f", &top, "empty"), Err(VfsError::EISDIR));
    assert_eq!(top.rename(&mut vfs, "missing", &top, "m"), Err(VfsError::ENOENT));
    assert_eq!(top.rename(&mut vfs, "", &top, "m"), Err(VfsError::EINVAL));
    assert_eq!(top.rename(&mut vfs, "f", &top, "a/b"), Err(VfsError::EINVAL));
    assert_eq!(top.rename(&mut vfs, "src", &top, "empty"), Ok(()));
    assert!(!fs.has(0, "src"));
    let f = top.lookup_no_follow(&mut vfs, "f").unwrap();
    assert_eq!(f.rename(&mut vfs, "a", &f, "b"), Err(VfsError::ENOTDIR));
}

#[test]
fn open_file_follows_its_options() {
    let fs = MemFs::new(true);
    fs.add(0, "here", NodeType::RegularFile);
    let (mut vfs, root, _resolver) = namespace(&fs);
    let top = root.root_location(&vfs);
    let plain = OpenOptions::default();
    assert!(!plain.create && !plain.create_new && plain.user.is_none());
    assert_eq!(plain.permission.bits(), 0o666);
    let here = top.open_file(&mut vfs, "here", &plain).unwrap();
    assert_eq!(here.name(&vfs), "here");
    assert_eq!(top.open_file(&mut vfs, "gone", &plain), Err(VfsError::ENOENT));
    let new_only = OpenOptions { create: true, create_new: true, ..plain };
    assert_eq!(top.open_file(&mut vfs, "here", &new_only), Err(VfsError::EEXIST));
    assert_eq!(top.open_file(&mut vfs, ".", &new_only), Err(VfsError::EINVAL));
    let owned = OpenOptions {
        create: true,
        create_new: false,
        permission: NodePermission::from_bits_truncate(0o600),
        user: Some((7, 9)),
    };
    let made = top.open_file(&mut vfs, "made", &owned).unwrap();
    assert!(fs.has(0, "made"));
    let meta = made.metadata(&vfs).unwrap();
    assert_eq!((meta.uid, meta.gid), (7, 9));
    assert_eq!(meta.mode.bits(), 0o600);
    assert_eq!(meta.node_type, NodeType::RegularFile);
    assert_eq!(top.open_file(&mut vfs, "made", &owned), Ok(made));
    fs.fail_with(Some(VfsError::EIO));
    assert_eq!(top.open_file(&mut vfs, "blocked", &owned), Err(VfsError::EIO));
    fs.fail_with(None);
    assert_eq!(here.open_file(&mut vfs, "x", &plain), Err(VfsError::ENOTDIR));
}

#[test]
fn link_stays_within_a_mount() {
    let fs = MemFs::new(true);
    fs.add(0, "f", NodeType::RegularFile);
    fs.add(0, "mnt", NodeType::Directory);
    let (mut vfs, root, resolver) = namespace(&fs);
    let top = root.root_location(&vfs);
    let f = resolver.resolve(&mut vfs, "/f").unwrap();
    let mnt = resolver.resolve(&mut vfs, "/mnt").unwrap();
    mount_at(&mut vfs, mnt, &MemFs::new(true)).unwrap();
    let inside = resolver.resolve(&mut vfs, "/mnt").unwrap();
    assert_eq!(inside.link(&mut vfs, "g", &f), Err(VfsError::EXDEV));
    assert_eq!(f.link(&mut vfs, "g", &f), Err(VfsError::ENOTDIR));
    assert_eq!(top.link(&mut vfs, "a/b", &f), Err(VfsError::EINVAL));
    let g = top.link(&mut vfs, "g", &f).unwrap();
    assert_eq!(g.name(&vfs), "g");
    assert_eq!(g.inode(&vfs), f.inode(&vfs));
    assert_eq!(top.entry().as_dir(&vfs).unwrap().lookup_cache("g"), Some(*g.entry()));
    assert_eq!(top.link(&mut vfs, "g", &f), Err(VfsError::EEXIST));
}

#[test]
fn read_link_decodes_the_target() {
    let fs = MemFs::new(true);
    let good = fs.add(0, "good", NodeType::Symlink);
    fs.set_data(good, "/a/t\u{e9}".as_bytes());
    let bad = fs.add(0, "bad", NodeType::Symlink);
    fs.set_data(bad, &[0x66, 0xff, 0x6f]);
    fs.add(0, "plain", NodeType::RegularFile);
    let (mut vfs, root, resolver) = namespace(&fs);
    let good = resolver.resolve(&mut vfs, "/good").unwrap();
    assert_eq!(good.node_type(&vfs), NodeType::Symlink);
    assert_eq!(good.metadata(&vfs).unwrap().node_type, NodeType::Symlink);
    assert_eq!(good.read_link(&vfs), Ok("/a/t\u{e9}".to_string()));
    let bad = resolver.resolve(&mut vfs, "/bad").unwrap();
    assert_eq!(bad.read_link(&vfs), Err(VfsError::EINVAL));
    let plain = resolver.resolve(&mut vfs, "/plain").unwrap();
    assert_eq!(plain.read_link(&vfs), Err(VfsError::EINVAL));
    assert_eq!(root.root_location(&vfs).read_link(&vfs), Err(VfsError::EINVAL));
    assert_eq!(decode_link(vec![0x68, 0x69]), Ok("hi".to_string()));
    assert_eq!(decode_link(vec![0xc3]), Err(VfsError::EINVAL));
    assert_eq!(decode_link(Vec::new()), Ok(String::new()));
}

#[test]
fn filesystem_handle_is_shared() {
    let fs = MemFs::new(true);
    fs.add(0, "f", NodeType::RegularFile);
    let handle = Filesystem::new(Arc::new(fs.clone()));
    let other = handle.clone();
    assert_eq!(other.name(), "memfs");
    assert_eq!(handle.name(), "memfs");
    assert_eq!(other.stat().unwrap().file_count, 2);
    fs.add(0, "g", NodeType::RegularFile);
    assert_eq!(handle.stat().unwrap().file_count, 3);
    assert_eq!(other.stat().unwrap().file_count, 3);
    assert_eq!(other.root_dir().inner().ino, 0);
}

#[test]
fn filesystem_of_a_node_is_what_the_backend_names() {
    let fs = MemFs::new(true);
    fs.add(0, "f", NodeType::RegularFile);
    fs.add(0, "mnt", NodeType::Directory);
    let inner = MemFs::new(false);
    inner.add(0, "g", NodeType::RegularFile);
    let (mut vfs, _root, resolver) = namespace(&fs);
    let mnt = resolver.resolve(&mut vfs, "/mnt").unwrap();
    mount_at(&mut vfs, mnt, &inner).unwrap();
    let f = resolver.resolve(&mut vfs, "/f").unwrap();
    let g = resolver.resolve(&mut vfs, "/mnt/g").unwrap();
    assert_eq!(f.filesystem(&vfs).name(), "memfs");
    assert!(f.filesystem(&vfs).is_cacheable());
    assert!(!g.filesystem(&vfs).is_cacheable());
    assert!(!g.entry().filesystem(&vfs).is_cacheable());
    assert!(mnt.filesystem(&vfs).is_cacheable());
    assert_eq!(g.filesystem(&vfs).stat().unwrap().file_count, 2);
}

#[test]
fn entry_kinds_and_accessors() {
    let fs = MemFs::new(true);
    fs.add(0, "f", NodeType::RegularFile);
    let d = fs.add(0, "d", NodeType::Directory);
    let (mut vfs, root, resolver) = namespace(&fs);
    let f = *resolver.resolve(&mut vfs, "/f").unwrap().entry();
    let dir = *resolver.resolve(&mut vfs, "/d").unwrap().entry();
    assert!(f.as_file(&vfs).is_ok());
    assert!(matches!(f.as_dir(&vfs), Err(VfsError::ENOTDIR)));
    assert!(matches!(dir.as_file(&vfs), Err(VfsError::EISDIR)));
    assert_eq!(dir.as_dir(&vfs).unwrap().inner().ino, d);
    assert_eq!(dir.ioctl(&vfs, 1, 2), Err(VfsError::ENOTTY));
    assert_eq!(f.ioctl(&vfs, 1, 2), Err(VfsError::ENOTTY));
    assert_eq!(f.len(&vfs), Ok(0));
    assert_eq!(f.sync(&vfs, true), Ok(()));
    assert_eq!(f.update_metadata(&vfs, MetadataUpdate { owner: Some((3, 4)), ..MetadataUpdate::default() }), Ok(()));
    assert_eq!(f.metadata(&vfs).unwrap().uid, 3);
    let f_loc = Location::new(root, f);
    assert_eq!(f_loc.check_is_file(&vfs), Ok(()));
    assert_eq!(f_loc.check_is_dir(&vfs), Err(VfsError::ENOTDIR));
    assert_eq!(Location::new(root, dir).check_is_file(&vfs), Err(VfsError::EISDIR));
    let top = *root.root_location(&vfs).entry();
    assert_eq!(top.key(&vfs), (0usize, String::new()));
    assert_eq!(f.key(&vfs), (top.as_ptr(), "f".to_string()));
    assert_eq!(Reference::root().key(), (0usize, String::new()));
    assert_eq!(Reference::new(Some(top), "q".to_string()).key(), (top.as_ptr(), "q".to_string()));
    assert_eq!(f.downgrade().upgrade(&vfs), Some(f));
    assert_eq!(WeakDirEntry { id: 1000 }.upgrade(&vfs), None);
    assert!(vfs.contains(f));
    assert!(vfs.contains_mount(root));
    assert_eq!(vfs.mount_count(), 1);
}

#[test]
fn new_dir_tells_the_node_its_entry() {
    let fs = MemFs::new(true);
    let (mut vfs, root, _resolver) = namespace(&fs);
    let top = *root.root_location(&vfs).entry();
    let mut told = None;
    let next = vfs.entry_count();
    let e = DirEntry::new_dir(
        &mut vfs,
        |this: WeakDirEntry| {
            told = Some(this);
            DirNode::new(MemDir { fs: fs.clone(), ino: 0 })
        },
        Reference::new(Some(top), "sub".to_string()),
    );
    assert_eq!(told, Some(e.downgrade()));
    assert_eq!(e.as_ptr(), next + 1);
    assert_eq!(e.node_type(&vfs), NodeType::Directory);
    assert_eq!(e.absolute_path(&vfs).unwrap(), "/sub");
}

#[test]
fn resolve_parent_and_nonexistent() {
    let fs = MemFs::new(true);
    let a = fs.add(0, "a", NodeType::Directory);
    fs.add(a, "b", NodeType::RegularFile);
    let (mut vfs, root, resolver) = namespace(&fs);
    let top = root.root_location(&vfs);
    let dir_a = resolver.resolve(&mut vfs, "/a").unwrap();
    assert_eq!(resolver.resolve_parent(&mut vfs, "/a/new"), Ok((dir_a, "new".to_string())));
    assert_eq!(resolver.resolve_parent(&mut vfs, "/a/."), Ok((top, "a".to_string())));
    assert_eq!(resolver.resolve_parent(&mut vfs, "/a/b/.."), Ok((top, "a".to_string())));
    assert_eq!(resolver.resolve_parent(&mut vfs, "/"), Err(VfsError::EINVAL));
    assert_eq!(resolver.resolve_parent(&mut vfs, "/a/b/c"), Err(VfsError::ENOTDIR));
    assert_eq!(resolver.resolve_nonexistent(&mut vfs, "/a/new"), Ok((dir_a, "new")));
    assert_eq!(resolver.resolve_nonexistent(&mut vfs, "/a/.."), Err(VfsError::EEXIST));
    assert_eq!(resolver.resolve_nonexistent(&mut vfs, "/"), Err(VfsError::EEXIST));
    assert_eq!(resolver.resolve_nonexistent(&mut vfs, "/x/new"), Err(VfsError::ENOENT));
    let (dir, tail) = resolver.resolve_inner(&mut vfs, "a/b").unwrap();
    assert_eq!((dir, tail), (dir_a, Some("b")));
    assert_eq!(resolver.resolve_inner(&mut vfs, "a/.."), Ok((top, None)));
}

#[test]
fn current_directory_must_be_a_directory() {
    let fs = MemFs::new(true);
    let a = fs.add(0, "a", NodeType::Directory);
    fs.add(a, "b", NodeType::RegularFile);
    let (mut vfs, root, mut resolver) = namespace(&fs);
    let dir_a = resolver.resolve(&mut vfs, "/a").unwrap();
    let b = resolver.resolve(&mut vfs, "/a/b").unwrap();
    assert_eq!(resolver.set_current_dir(&vfs, b), Err(VfsError::ENOTDIR));
    assert_eq!(*resolver.current_dir(), root.root_location(&vfs));
    assert_eq!(resolver.set_current_dir(&vfs, dir_a), Ok(()));
    assert_eq!(*resolver.current_dir(), dir_a);
    assert_eq!(*resolver.root_dir(), root.root_location(&vfs));
    assert_eq!(resolver.resolve(&mut vfs, "b"), Ok(b));
    assert_eq!(resolver.resolve(&mut vfs, "/a/b"), Ok(b));
    assert!(resolver.with_current_dir(&vfs, b).is_err());
    let copy = resolver;
    assert_eq!(copy.resolve(&mut vfs, "."), Ok(dir_a));
}

#[test]
fn child_probe_stops_at_first_child() {
    let mut probe = ChildProbe::new();
    assert!(!probe.found());
    assert!(probe.accept(".", 1, NodeType::Directory, 1));
    assert!(probe.accept("..", 1, NodeType::Directory, 2));
    assert!(!probe.found());
    assert!(!probe.accept("...", 2, NodeType::RegularFile, 3));
    assert!(probe.found());
    assert!(probe.accept(".", 1, NodeType::Directory, 1));
    assert!(probe.found());
}

#[test]
fn metadata_helpers_replace_one_field() {
    let zero = Timestamp { secs: 0, nanos: 0 };
    let meta = Metadata {
        device: 9,
        inode: 5,
        nlink: 1,
        mode: NodePermission::default(),
        node_type: NodeType::RegularFile,
        uid: 1,
        gid: 2,
        size: 10,
        block_size: 512,
        blocks: 1,
        atime: zero,
        mtime: zero,
        ctime: zero,
    };
    let typed = with_node_type(meta, NodeType::Symlink);
    assert_eq!(typed.node_type, NodeType::Symlink);
    assert_eq!((typed.device, typed.inode, typed.size), (9, 5, 10));
    let moved = with_device(meta, 3);
    assert_eq!(moved.device, 3);
    assert_eq!((moved.inode, moved.node_type), (5, NodeType::RegularFile));
    let later = Timestamp { secs: 5, nanos: 6 };
    let update = MetadataUpdate {
        mode: Some(NodePermission::from_bits_truncate(0o755)),
        owner: None,
        atime: None,
        mtime: Some(later),
    };
    let applied = update.apply(&meta);
    assert_eq!(applied.mode.bits(), 0o755);
    assert_eq!((applied.uid, applied.gid), (1, 2));
    assert_eq!(applied.atime, zero);
    assert_eq!(applied.mtime, later);
    assert_eq!(applied.ctime, zero);
}

#[test]
fn size_is_read_from_reported_metadata() {
    let fs = MemFs::new(true);
    let f = fs.add(0, "f", NodeType::RegularFile);
    fs.set_data(f, b"abc");
    let (mut vfs, _root, resolver) = namespace(&fs);
    let at = resolver.resolve(&mut vfs, "/f").unwrap();
    assert_eq!(at.len(&vfs), Ok(3));
    assert_eq!(at.entry().len(&vfs), Ok(3));
    assert_eq!(at.inode(&vfs), f as u64);
    assert_eq!(at.sync(&vfs, false), Ok(()));
    let meta = at.metadata(&vfs).unwrap();
    assert_eq!(reported_size(Ok(meta)), Ok(3));
    assert_eq!(reported_size(Err(VfsError::EIO)), Err(VfsError::EIO));
    fs.fail_with(Some(VfsError::EACCES));
    assert_eq!(
        at.update_metadata(&vfs, MetadataUpdate { owner: Some((1, 1)), ..MetadataUpdate::default() }),
        Err(VfsError::EACCES)
    );
}

#[test]
fn absolute_paths_are_joined_with_separators() {
    assert_eq!(build_absolute_path(&Vec::new()), "/");
    assert_eq!(build_absolute_path(&vec!["a".to_string()]), "/a");
    assert_eq!(build_absolute_path(&vec!["c".to_string(), "b".to_string(), "a".to_string()]), "/a/b/c");
}

#[test]
fn backend_errors_pass_through() {
    let fs = MemFs::new(true);
    let (mut vfs, root, resolver) = namespace(&fs);
    let top = root.root_location(&vfs);
    for e in [VfsError::EIO, VfsError::EACCES, VfsError::EBUSY, VfsError::Other(95)] {
        fs.fail_with(Some(e));
        assert_eq!(resolver.resolve(&mut vfs, "/x"), Err(e));
        assert_eq!(top.lookup_no_follow(&mut vfs, "x"), Err(e));
        assert_eq!(top.unlink(&mut vfs, "x", false), Err(e));
    }
}
