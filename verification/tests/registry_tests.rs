use gh_mount::registry::AttributeRecord;
use gh_mount::registry::EntityKind;
use gh_mount::registry::Registry;

fn dir_attr(size: u64, now: u64) -> AttributeRecord {
    AttributeRecord { kind: EntityKind::Directory, perm: 0o644, size, timestamp: now }
}

#[test]
fn root_is_inode_one() {
    let r = Registry::new(dir_attr(0, 7));
    assert_eq!(r.size(), 1);
    assert_eq!(r.resolve_path(1), "/");
    assert_eq!(r.resolve_inode("/"), Some(1));
}

#[test]
fn insert_assigns_size_plus_one() {
    let mut r = Registry::new(dir_attr(0, 7));
    let a = r.insert("alice", dir_attr(5, 7));
    let b = r.insert("alice/web", dir_attr(3, 7));
    assert_eq!(a, 2);
    assert_eq!(b, 3);
    assert_eq!(r.size(), 3);
}

#[test]
fn insert_is_idempotent() {
    let mut r = Registry::new(dir_attr(0, 7));
    let first = r.insert("alice", dir_attr(5, 7));
    let size_after_first = r.size();
    let second = r.insert("alice", dir_attr(99, 1234));
    assert_eq!(second, first);
    assert_eq!(r.size(), size_after_first);
    // The original record is kept, not overwritten.
    let attr = r.get_attributes(first).unwrap();
    assert_eq!(attr.size, 5);
    assert_eq!(attr.timestamp, 7);
}

#[test]
fn bijection_round_trips() {
    let mut r = Registry::new(dir_attr(0, 7));
    r.insert("alice", dir_attr(5, 7));
    r.insert("alice/web", dir_attr(3, 7));
    r.insert("alice/cli", dir_attr(3, 7));
    for ino in 1..=4u64 {
        let path = r.resolve_path(ino);
        assert_eq!(r.resolve_inode(path.as_str()), Some(ino));
    }
    for path in ["/", "alice", "alice/web", "alice/cli"] {
        let ino = r.resolve_inode(path).unwrap();
        assert_eq!(r.resolve_path(ino), path);
    }
}

#[test]
fn unknown_inode_resolves_to_sentinel() {
    let r = Registry::new(dir_attr(0, 7));
    assert_eq!(r.resolve_path(0), "");
    assert_eq!(r.resolve_path(99), "");
    assert_eq!(r.get_attributes(99), None);
    assert_eq!(r.resolve_inode("nobody"), None);
}

#[test]
fn set_kind_flips_only_the_kind() {
    let mut r = Registry::new(dir_attr(0, 7));
    let ino = r.insert("alice/web", dir_attr(3, 7));
    r.set_kind(ino, EntityKind::Symlink);
    let attr = r.get_attributes(ino).unwrap();
    assert_eq!(attr.kind, EntityKind::Symlink);
    assert_eq!(attr.perm, 0o644);
    assert_eq!(attr.size, 3);
    assert_eq!(attr.timestamp, 7);
    // Other entries untouched.
    assert_eq!(r.get_attributes(1).unwrap().kind, EntityKind::Directory);
}
