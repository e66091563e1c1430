use gh_mount::fs::FsError;
use gh_mount::fs::GithubVirtualFileSystem;
use gh_mount::registry::EntityKind;
use gh_mount::GithubVirtualFileSystemPath;

fn strings(names: &[&str]) -> Vec<String> {
    names.iter().map(|s| s.to_string()).collect()
}

#[test]
fn mount_scenario() {
    // Mount: only the root is known.
    let mut fs = GithubVirtualFileSystem::new(7);
    let groups = fs.partition_by_kind();
    assert!(groups.accounts.is_empty());
    assert!(groups.repositories.is_empty());

    // Lookup of `alice` under the root misses, so the caller populates
    // from the provider's listing, then resolves again.
    assert_eq!(fs.resolve_lookup(1, "alice"), 0);
    fs.populate_account("alice", &strings(&["web", "cli"]), 7);
    let alice = fs.resolve_lookup(1, "alice");
    assert!(alice >= 2);

    // The grouping view now shows the account.
    let groups = fs.partition_by_kind();
    assert_eq!(groups.accounts.len(), 1);
    assert_eq!(groups.accounts[0].0, "alice");
    assert_eq!(groups.accounts[0].1, alice);

    // Listing under `alice` shows both repositories with distinct
    // inodes of at least 2.
    let listing = fs.readdir_entries(alice).unwrap();
    assert_eq!(listing.len(), 2);
    let names: Vec<&str> = listing.iter().map(|e| e.1.as_str()).collect();
    assert!(names.contains(&"web"));
    assert!(names.contains(&"cli"));
    assert!(listing[0].0 >= 2);
    assert!(listing[1].0 >= 2);
    assert_ne!(listing[0].0, listing[1].0);
}

#[test]
fn lookup_repository_under_account() {
    let mut fs = GithubVirtualFileSystem::new(7);
    fs.populate_account("alice", &strings(&["web", "cli"]), 7);
    let alice = fs.resolve_lookup(1, "alice");
    let web = fs.resolve_lookup(alice, "web");
    assert_eq!(fs.registry.resolve_inode("alice/web"), Some(web));
    assert_eq!(fs.resolve_lookup(alice, "missing"), 0);
    // No name lookup is defined below a repository.
    assert_eq!(fs.resolve_lookup(web, "anything"), 0);
}

#[test]
fn lookup_unknown_parent_acts_as_root() {
    let mut fs = GithubVirtualFileSystem::new(7);
    fs.populate_account("alice", &strings(&["web"]), 7);
    let alice = fs.registry.resolve_inode("alice").unwrap();
    // An unknown parent inode resolves to the sentinel path, which is
    // root-equivalent, so the account is found by name.
    assert_eq!(fs.resolve_lookup(999, "alice"), alice);
}

#[test]
fn readdir_under_root_is_permission_denied() {
    let fs = GithubVirtualFileSystem::new(7);
    assert_eq!(fs.readdir_entries(1), Err(FsError::PermissionDenied));
    // Unknown inodes are root-equivalent.
    assert_eq!(fs.readdir_entries(42), Err(FsError::PermissionDenied));
}

#[test]
fn readdir_repository_lists_its_files() {
    let mut fs = GithubVirtualFileSystem::new(7);
    fs.populate_account("alice", &strings(&["web", "cli"]), 7);
    fs.populate_repository_files("alice/web", &strings(&["a.txt", "b.txt"]), 7);
    fs.populate_repository_files("alice/cli", &strings(&["c.txt"]), 7);
    let web = fs.registry.resolve_inode("alice/web").unwrap();
    let listing = fs.readdir_entries(web).unwrap();
    let names: Vec<&str> = listing.iter().map(|e| e.1.as_str()).collect();
    assert_eq!(listing.len(), 2);
    assert!(names.contains(&"alice/web/a.txt"));
    assert!(names.contains(&"alice/web/b.txt"));
    // A file entry lists nothing.
    let file_ino = fs.registry.resolve_inode("alice/web/a.txt").unwrap();
    assert_eq!(fs.readdir_entries(file_ino).unwrap().len(), 0);
}

#[test]
fn classify_inode_pairs_path_and_kind() {
    let mut fs = GithubVirtualFileSystem::new(7);
    fs.populate_account("alice", &strings(&["web"]), 7);
    let (kind, path) = fs.classify_inode(1);
    assert_eq!(kind, GithubVirtualFileSystemPath::Root);
    assert_eq!(path, "/");
    let web = fs.registry.resolve_inode("alice/web").unwrap();
    let (kind, path) = fs.classify_inode(web);
    assert_eq!(kind, GithubVirtualFileSystemPath::Repository);
    assert_eq!(path, "alice/web");
    let (kind, path) = fs.classify_inode(12345);
    assert_eq!(kind, GithubVirtualFileSystemPath::Root);
    assert_eq!(path, "");
}

#[test]
fn materialization_promotes_repository_to_symlink() {
    let mut fs = GithubVirtualFileSystem::new(7);
    fs.populate_account("alice", &strings(&["repoA"]), 7);
    let ino = fs.registry.resolve_inode("alice/repoA").unwrap();

    // The access check on a repository asks for a clone at the
    // deterministic cache path...
    let target = fs.materialization_target("/home/u", ino).unwrap();
    assert_eq!(target, "/home/u/.config/gh_mount/alice/repoA");
    assert!(target.ends_with("alice/repoA"));

    // ...and afterwards the record reads as a symbolic link.
    fs.promote_to_symlink(ino);
    let attr = fs.get_attributes(ino).unwrap();
    assert_eq!(attr.kind, EntityKind::Symlink);
    assert_eq!(attr.size, 5);

    // Read-link recomputes the same target from the path alone.
    assert_eq!(fs.link_target("/home/u", ino), target);
}

#[test]
fn materialization_skips_non_repositories() {
    let mut fs = GithubVirtualFileSystem::new(7);
    fs.populate_account("alice", &strings(&["repoA"]), 7);
    let alice = fs.registry.resolve_inode("alice").unwrap();
    assert_eq!(fs.materialization_target("/home/u", alice), None);
    assert_eq!(fs.materialization_target("/home/u", 1), None);
}

#[test]
fn lookup_entry_promotes_when_cache_exists() {
    let mut fs = GithubVirtualFileSystem::new(7);
    fs.populate_account("alice", &strings(&["repoA"]), 7);
    let ino = fs.registry.resolve_inode("alice/repoA").unwrap();
    // Lookup trusts the disk check, not a stored flag.
    assert_eq!(fs.lookup_entry(ino, false).unwrap().kind, EntityKind::Directory);
    assert_eq!(fs.lookup_entry(ino, true).unwrap().kind, EntityKind::Symlink);
    // Accounts are never promoted.
    let alice = fs.registry.resolve_inode("alice").unwrap();
    assert_eq!(fs.lookup_entry(alice, true).unwrap().kind, EntityKind::Directory);
    // Unknown inodes have no entry.
    assert_eq!(fs.lookup_entry(999, true), None);
}

#[test]
fn get_attributes_of_known_and_unknown() {
    let fs = GithubVirtualFileSystem::new(7);
    let root = fs.get_attributes(1).unwrap();
    assert_eq!(root.kind, EntityKind::Directory);
    assert_eq!(root.perm, 0o755);
    assert_eq!(fs.get_attributes(2), None);
}
