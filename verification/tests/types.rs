use vfs_core::path::{components, file_name, verify_entry_name, Component};
use vfs_core::types::{NodePermission, NodeType};
use vfs_core::VfsError;

#[test]
fn node_type_codes_follow_posix() {
    assert_eq!(NodeType::Fifo.code(), 0o1);
    assert_eq!(NodeType::CharacterDevice.code(), 0o2);
    assert_eq!(NodeType::Directory.code(), 0o4);
    assert_eq!(NodeType::BlockDevice.code(), 0o6);
    assert_eq!(NodeType::RegularFile.code(), 0o10);
    assert_eq!(NodeType::Symlink.code(), 0o12);
    assert_eq!(NodeType::Socket.code(), 0o14);
}

#[test]
fn node_type_strict_decoder_rejects_unknown() {
    assert_eq!(NodeType::try_from(0o10), Ok(NodeType::RegularFile));
    assert_eq!(NodeType::try_from(0), Err(()));
    assert_eq!(NodeType::try_from(3), Err(()));
    assert_eq!(NodeType::from_code(3), NodeType::Unknown);
    assert_eq!(NodeType::from_code(0o12), NodeType::Symlink);
}

#[test]
fn default_permission_is_0o666() {
    assert_eq!(NodePermission::default().bits(), 0o666);
    assert_eq!(NodePermission::from_bits_truncate(0o7777).bits(), 0o777);
    assert!(NodePermission::from_bits(0o1000).is_none());
}

#[test]
fn entry_names_are_validated() {
    assert_eq!(verify_entry_name("a"), Ok(()));
    assert_eq!(verify_entry_name(""), Err(VfsError::EINVAL));
    assert_eq!(verify_entry_name("."), Err(VfsError::EINVAL));
    assert_eq!(verify_entry_name(".."), Err(VfsError::EINVAL));
    assert_eq!(verify_entry_name("a/b"), Err(VfsError::EINVAL));
    assert_eq!(verify_entry_name("..."), Ok(()));
}

#[test]
fn paths_split_into_components() {
    let comps = components("/a//b/./../c/");
    assert_eq!(comps.len(), 5);
    assert!(matches!(comps[0], Component::RootDir));
    assert!(matches!(comps[1], Component::Normal("a")));
    assert!(matches!(comps[2], Component::Normal("b")));
    assert!(matches!(comps[3], Component::ParentDir));
    assert!(matches!(comps[4], Component::Normal("c")));
    assert_eq!(file_name("/a/b/."), Some("b"));
    assert_eq!(file_name("/a/.."), None);
    assert_eq!(file_name("/"), None);
    let rel = components("./x");
    assert!(matches!(rel[0], Component::CurDir));
    assert!(matches!(rel[1], Component::Normal("x")));
}
