use vstd::prelude::*;

verus! {

/// The type of a file-system node.
///
/// `Unknown` never describes a node of a backend; it is what a lenient
/// decoder answers for a number that names no type.
#[derive(Debug, Clone, Copy, PartialEq, Eq, Structural)]
pub enum NodeType {
    Unknown,
    Fifo,
    CharacterDevice,
    Directory,
    BlockDevice,
    RegularFile,
    Symlink,
    Socket,
}

impl NodeType {
    /// The number that stands for this type in a directory listing
    /// (the POSIX `DT_*` values).
    pub open spec fn spec_code(self) -> u8 {
        match self {
            NodeType::Unknown => 0,
            NodeType::Fifo => 0o1,
            NodeType::CharacterDevice => 0o2,
            NodeType::Directory => 0o4,
            NodeType::BlockDevice => 0o6,
            NodeType::RegularFile => 0o10,
            NodeType::Symlink => 0o12,
            NodeType::Socket => 0o14,
        }
    }

    /// The type that a number stands for, if it stands for one.
    pub open spec fn spec_decode(value: u8) -> Option<NodeType> {
        if value == 0o1 {
            Some(NodeType::Fifo)
        } else if value == 0o2 {
            Some(NodeType::CharacterDevice)
        } else if value == 0o4 {
            Some(NodeType::Directory)
        } else if value == 0o6 {
            Some(NodeType::BlockDevice)
        } else if value == 0o10 {
            Some(NodeType::RegularFile)
        } else if value == 0o12 {
            Some(NodeType::Symlink)
        } else if value == 0o14 {
            Some(NodeType::Socket)
        } else {
            None
        }
    }

    /// Encodes the type as its number.
    pub fn code(self) -> (r: u8)
        ensures
            r == self.spec_code(),
    {
        match self {
            NodeType::Unknown => 0,
            NodeType::Fifo => 0o1,
            NodeType::CharacterDevice => 0o2,
            NodeType::Directory => 0o4,
            NodeType::BlockDevice => 0o6,
            NodeType::RegularFile => 0o10,
            NodeType::Symlink => 0o12,
            NodeType::Socket => 0o14,
        }
    }

    /// Strict decoder: a number that names no type is an error.
    pub fn try_from(value: u8) -> (r: Result<NodeType, ()>)
        ensures
            match Self::spec_decode(value) {
                Some(t) => r == Ok::<NodeType, ()>(t),
                None => r is Err,
            },
    {
        match value {
            0o1 => Ok(NodeType::Fifo),
            0o2 => Ok(NodeType::CharacterDevice),
            0o4 => Ok(NodeType::Directory),
            0o6 => Ok(NodeType::BlockDevice),
            0o10 => Ok(NodeType::RegularFile),
            0o12 => Ok(NodeType::Symlink),
            0o14 => Ok(NodeType::Socket),
            _ => Err(()),
        }
    }

    /// Lenient decoder: a number that names no type gives `Unknown`.
    pub fn from_code(value: u8) -> (r: NodeType)
        ensures
            match Self::spec_decode(value) {
                Some(t) => r == t,
                None => r == NodeType::Unknown,
            },
    {
        match Self::try_from(value) {
            Ok(t) => t,
            Err(_) => NodeType::Unknown,
        }
    }

    /// Decoding the number of a type gives the type back, and a number that
    /// decodes is the number of what it decodes to.
    pub proof fn lemma_code_round_trip(t: NodeType, value: u8)
        ensures
            t != NodeType::Unknown ==> Self::spec_decode(t.spec_code()) == Some(t),
            Self::spec_decode(value) matches Some(d) ==> (d.spec_code() == value && d
                != NodeType::Unknown),
    {
    }
}

/// Permission bits of a node: the nine POSIX mode bits.
#[derive(Debug, Clone, Copy, PartialEq, Eq, Structural)]
pub struct NodePermission {
    bits: u16,
}

/// The mask of all nine permission bits.
pub const PERMISSION_MASK: u16 = 0o777;

impl NodePermission {
    /// Owner has read permission.
    pub const OWNER_READ: u16 = 0o400;

    /// Owner has write permission.
    pub const OWNER_WRITE: u16 = 0o200;

    /// Owner has execute permission.
    pub const OWNER_EXEC: u16 = 0o100;

    /// Group has read permission.
    pub const GROUP_READ: u16 = 0o40;

    /// Group has write permission.
    pub const GROUP_WRITE: u16 = 0o20;

    /// Group has execute permission.
    pub const GROUP_EXEC: u16 = 0o10;

    /// Others have read permission.
    pub const OTHER_READ: u16 = 0o4;

    /// Others have write permission.
    pub const OTHER_WRITE: u16 = 0o2;

    /// Others have execute permission.
    pub const OTHER_EXEC: u16 = 0o1;

    /// The bits that are set.
    pub closed spec fn view(&self) -> u16 {
        self.bits
    }

    /// Only permission bits are ever set.
    pub open spec fn wf(&self) -> bool {
        self@ & !PERMISSION_MASK == 0
    }

    /// The permission set with exactly the permission bits of `bits`;
    /// other bits are dropped.
    pub fn from_bits_truncate(bits: u16) -> (r: NodePermission)
        ensures
            r@ == bits & PERMISSION_MASK,
            r.wf(),
    {
        let kept: u16 = bits & PERMISSION_MASK;
        assert((bits & 0o777u16) & !0o777u16 == 0) by (bit_vector);
        NodePermission { bits: kept }
    }

    /// The permission set with the bits of `bits`, if all of them are
    /// permission bits.
    pub fn from_bits(bits: u16) -> (r: Option<NodePermission>)
        ensures
            bits & !PERMISSION_MASK == 0 ==> (r matches Some(p) && p@ == bits && p.wf()),
            bits & !PERMISSION_MASK != 0 ==> r is None,
    {
        if bits & !PERMISSION_MASK == 0 {
            Some(NodePermission { bits })
        } else {
            None
        }
    }

    /// The empty permission set.
    pub fn empty() -> (r: NodePermission)
        ensures
            r@ == 0,
            r.wf(),
    {
        assert(0u16 & !0o777u16 == 0) by (bit_vector);
        NodePermission { bits: 0 }
    }

    /// The bits that are set.
    pub fn bits(&self) -> (r: u16)
        ensures
            r == self@,
    {
        self.bits
    }

    /// Whether every bit of `other` is set in `self`.
    pub fn contains(&self, other: NodePermission) -> (r: bool)
        ensures
            r == (self@ & other@ == other@),
    {
        self.bits & other.bits == other.bits
    }

    /// The bits set in either.
    pub fn union(self, other: NodePermission) -> (r: NodePermission)
        requires
            self.wf(),
            other.wf(),
        ensures
            r@ == self@ | other@,
            r.wf(),
    {
        let a: u16 = self.bits;
        let b: u16 = other.bits;
        assert(a & !0o777u16 == 0 && b & !0o777u16 == 0 ==> (a | b) & !0o777u16 == 0)
            by (bit_vector);
        NodePermission { bits: a | b }
    }
}

impl Default for NodePermission {
    /// Read and write for owner, group and others.
    fn default() -> (r: NodePermission)
        ensures
            r@ == 0o666,
            r.wf(),
    {
        assert(0o666u16 & 0o777u16 == 0o666u16) by (bit_vector);
        NodePermission::from_bits_truncate(0o666)
    }
}

/// A point in time, as whole seconds and nanoseconds since the epoch.
#[derive(Debug, Clone, Copy, PartialEq, Eq, Structural)]
pub struct Timestamp {
    pub secs: u64,
    pub nanos: u32,
}

/// Metadata of a node.
#[derive(Clone, Copy, Debug)]
pub struct Metadata {
    /// The device: the number of the mount the node was reached through.
    pub device: u64,
    /// Inode number.
    pub inode: u64,
    /// Number of hard links.
    pub nlink: u64,
    /// Permission mode.
    pub mode: NodePermission,
    /// Node type.
    pub node_type: NodeType,
    /// User of the owner.
    pub uid: u32,
    /// Group of the owner.
    pub gid: u32,
    /// Total size in bytes.
    pub size: u64,
    /// Block size for I/O.
    pub block_size: u64,
    /// Number of 512-byte blocks allocated.
    pub blocks: u64,
    /// Time of last access.
    pub atime: Timestamp,
    /// Time of last modification.
    pub mtime: Timestamp,
    /// Time of last status change.
    pub ctime: Timestamp,
}

/// A partial update of a node's metadata: a field that is `None` leaves
/// the node's value as it is.
#[derive(Clone, Copy, Debug)]
pub struct MetadataUpdate {
    /// New permission mode.
    pub mode: Option<NodePermission>,
    /// New owner, as (user, group).
    pub owner: Option<(u32, u32)>,
    /// New time of last access.
    pub atime: Option<Timestamp>,
    /// New time of last modification.
    pub mtime: Option<Timestamp>,
}

impl MetadataUpdate {
    /// What `meta` becomes when the update is applied to it.
    pub open spec fn spec_apply(self, meta: Metadata) -> Metadata {
        Metadata {
            mode: match self.mode {
                Some(m) => m,
                None => meta.mode,
            },
            uid: match self.owner {
                Some(o) => o.0,
                None => meta.uid,
            },
            gid: match self.owner {
                Some(o) => o.1,
                None => meta.gid,
            },
            atime: match self.atime {
                Some(t) => t,
                None => meta.atime,
            },
            mtime: match self.mtime {
                Some(t) => t,
                None => meta.mtime,
            },
            ..meta
        }
    }

    /// Applies the update: each field that is present replaces the
    /// value in `meta`, the others stay.
    pub fn apply(&self, meta: &Metadata) -> (r: Metadata)
        ensures
            r == self.spec_apply(*meta),
    {
        let mut out = *meta;
        if let Some(m) = self.mode {
            out.mode = m;
        }
        if let Some(o) = self.owner {
            out.uid = o.0;
            out.gid = o.1;
        }
        if let Some(t) = self.atime {
            out.atime = t;
        }
        if let Some(t) = self.mtime {
            out.mtime = t;
        }
        out
    }
}

impl Default for MetadataUpdate {
    /// The update that changes nothing.
    fn default() -> (r: MetadataUpdate)
        ensures
            r.mode is None,
            r.owner is None,
            r.atime is None,
            r.mtime is None,
    {
        MetadataUpdate { mode: None, owner: None, atime: None, mtime: None }
    }
}

} // verus!
