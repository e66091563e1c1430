use gh_mount::fs::GithubVirtualFileSystem;
use gh_mount::paths::split_lines;
use gh_mount::populate::account_is_ignored;
use gh_mount::registry::EntityKind;

fn strings(names: &[&str]) -> Vec<String> {
    names.iter().map(|s| s.to_string()).collect()
}

#[test]
fn populate_account_inserts_account_and_repos() {
    let mut fs = GithubVirtualFileSystem::new(7);
    fs.populate_account("alice", &strings(&["repoA", "repoB", ""]), 7);
    assert!(fs.registry.resolve_inode("alice").is_some());
    assert!(fs.registry.resolve_inode("alice/repoA").is_some());
    assert!(fs.registry.resolve_inode("alice/repoB").is_some());
    // The empty listing line is discarded: no entry for it in any shape.
    assert_eq!(fs.registry.resolve_inode(""), None);
    assert_eq!(fs.registry.resolve_inode("alice/"), None);
    assert_eq!(fs.registry.size(), 4);
}

#[test]
fn populate_account_is_deterministic() {
    let mut fs1 = GithubVirtualFileSystem::new(7);
    let mut fs2 = GithubVirtualFileSystem::new(7);
    fs1.populate_account("alice", &strings(&["repoA", "repoB", ""]), 7);
    fs2.populate_account("alice", &strings(&["repoA", "repoB", ""]), 7);
    assert_eq!(fs1.registry.size(), fs2.registry.size());
    for ino in 1..=fs1.registry.size() as u64 {
        assert_eq!(fs1.registry.resolve_path(ino), fs2.registry.resolve_path(ino));
        assert_eq!(fs1.registry.get_attributes(ino), fs2.registry.get_attributes(ino));
    }
}

#[test]
fn populate_account_again_changes_nothing() {
    let mut fs = GithubVirtualFileSystem::new(7);
    fs.populate_account("alice", &strings(&["repoA", "repoB"]), 7);
    let ino_a = fs.registry.resolve_inode("alice/repoA").unwrap();
    let size = fs.registry.size();
    fs.populate_account("alice", &strings(&["repoA", "repoB"]), 99);
    assert_eq!(fs.registry.size(), size);
    assert_eq!(fs.registry.resolve_inode("alice/repoA"), Some(ino_a));
    // The original records survive the re-run.
    assert_eq!(fs.registry.get_attributes(ino_a).unwrap().timestamp, 7);
}

#[test]
fn populate_account_ignores_reserved_names() {
    assert!(account_is_ignored(".git"));
    assert!(!account_is_ignored("alice"));
    let mut fs = GithubVirtualFileSystem::new(7);
    fs.populate_account(".git", &strings(&["repoA"]), 7);
    assert_eq!(fs.registry.size(), 1);
    assert_eq!(fs.registry.resolve_inode(".git"), None);
}

#[test]
fn populate_account_records() {
    let mut fs = GithubVirtualFileSystem::new(7);
    fs.populate_account("alice", &strings(&["web"]), 42);
    let user_attr = fs.registry.get_attributes(2).unwrap();
    assert_eq!(user_attr.kind, EntityKind::Directory);
    assert_eq!(user_attr.perm, 0o644);
    assert_eq!(user_attr.size, 5);
    assert_eq!(user_attr.timestamp, 42);
    let repo_attr = fs.registry.get_attributes(3).unwrap();
    assert_eq!(repo_attr.size, 3);
}

#[test]
fn populate_account_from_provider_listing() {
    // A provider's newline-delimited standard output, split and fed in.
    let stdout = "repoA\nrepoB\n";
    let mut fs = GithubVirtualFileSystem::new(7);
    fs.populate_account("alice", &split_lines(stdout), 7);
    assert!(fs.registry.resolve_inode("alice/repoA").is_some());
    assert!(fs.registry.resolve_inode("alice/repoB").is_some());
    assert_eq!(fs.registry.size(), 4);
}

#[test]
fn populate_repository_files_inserts_tree_paths() {
    let mut fs = GithubVirtualFileSystem::new(7);
    fs.populate_account("alice", &strings(&["web"]), 7);
    fs.populate_repository_files("alice/web", &strings(&["src/main.rs", "README.md"]), 7);
    assert!(fs.registry.resolve_inode("alice/web/src/main.rs").is_some());
    assert!(fs.registry.resolve_inode("alice/web/README.md").is_some());
    // File records carry the repository name's length as informal size.
    let ino = fs.registry.resolve_inode("alice/web/README.md").unwrap();
    assert_eq!(fs.registry.get_attributes(ino).unwrap().size, 3);
}

#[test]
fn populate_repository_files_discards_empty_lines() {
    // A provider listing with a trailing newline splits into a final
    // empty piece; that piece is a splitting artifact, not a file path,
    // and yields no entry.
    let mut fs = GithubVirtualFileSystem::new(7);
    fs.populate_account("alice", &strings(&["web"]), 7);
    let size_before = fs.registry.size();
    fs.populate_repository_files("alice/web", &split_lines("a.txt\nb.txt\n"), 7);
    assert!(fs.registry.resolve_inode("alice/web/a.txt").is_some());
    assert!(fs.registry.resolve_inode("alice/web/b.txt").is_some());
    assert_eq!(fs.registry.resolve_inode("alice/web/"), None);
    assert_eq!(fs.registry.size(), size_before + 2);
    // An empty line in the middle is discarded too.
    fs.populate_repository_files("alice/web", &strings(&["", "c.txt"]), 7);
    assert!(fs.registry.resolve_inode("alice/web/c.txt").is_some());
    assert_eq!(fs.registry.resolve_inode("alice/web/"), None);
    assert_eq!(fs.registry.size(), size_before + 3);
}

#[test]
fn populate_repository_files_is_idempotent() {
    let mut fs = GithubVirtualFileSystem::new(7);
    fs.populate_account("alice", &strings(&["web"]), 7);
    fs.populate_repository_files("alice/web", &strings(&["README.md"]), 7);
    let ino = fs.registry.resolve_inode("alice/web/README.md").unwrap();
    let size = fs.registry.size();
    fs.populate_repository_files("alice/web", &strings(&["README.md"]), 9);
    assert_eq!(fs.registry.size(), size);
    assert_eq!(fs.registry.resolve_inode("alice/web/README.md"), Some(ino));
}
