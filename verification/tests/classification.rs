use gh_mount::paths::account_of;
use gh_mount::paths::classify;
use gh_mount::paths::first_index_in;
use gh_mount::paths::format_repository_name;
use gh_mount::paths::repo_of;
use gh_mount::paths::split_lines;
use gh_mount::paths::str_eq;
use gh_mount::paths::GithubVirtualFileSystemPath;

#[test]
fn classify_root_forms() {
    assert_eq!(classify(""), GithubVirtualFileSystemPath::Root);
    assert_eq!(classify("/"), GithubVirtualFileSystemPath::Root);
}

#[test]
fn classify_account() {
    assert_eq!(classify("alice"), GithubVirtualFileSystemPath::Account);
}

#[test]
fn classify_repository() {
    assert_eq!(classify("alice/repo"), GithubVirtualFileSystemPath::Repository);
}

#[test]
fn classify_file() {
    assert_eq!(classify("alice/repo/file.txt"), GithubVirtualFileSystemPath::File);
    assert_eq!(classify("alice/repo/dir/file.txt"), GithubVirtualFileSystemPath::File);
}

#[test]
fn classify_split_artifacts() {
    // A trailing slash still counts as a second, empty segment.
    assert_eq!(classify("alice/"), GithubVirtualFileSystemPath::Repository);
    assert_eq!(classify("//"), GithubVirtualFileSystemPath::File);
}

#[test]
fn kind_labels() {
    assert_eq!(GithubVirtualFileSystemPath::Root.as_str(), "none");
    assert_eq!(GithubVirtualFileSystemPath::Account.as_str(), "user");
    assert_eq!(GithubVirtualFileSystemPath::Repository.as_str(), "repo");
    assert_eq!(GithubVirtualFileSystemPath::File.as_str(), "file");
}

#[test]
fn segments_of_keys() {
    assert_eq!(account_of("alice/repo"), "alice");
    assert_eq!(account_of("alice"), "alice");
    assert_eq!(account_of(""), "");
    assert_eq!(repo_of("alice/repo"), "repo");
    assert_eq!(repo_of("alice/repo/file.txt"), "repo");
    assert_eq!(repo_of("alice/"), "");
}

#[test]
fn format_joins_with_slash() {
    assert_eq!(format_repository_name("alice", "web"), "alice/web");
    assert_eq!(format_repository_name("", ""), "/");
}

#[test]
fn first_index_scans() {
    assert_eq!(first_index_in("alice/repo", '/'), 5);
    assert_eq!(first_index_in("alice", '/'), 5);
    assert_eq!(first_index_in("/x", '/'), 0);
}

#[test]
fn split_lines_keeps_empty_pieces() {
    assert_eq!(split_lines("repoA\nrepoB\n"), vec!["repoA", "repoB", ""]);
    assert_eq!(split_lines(""), vec![""]);
    assert_eq!(split_lines("one"), vec!["one"]);
    assert_eq!(split_lines("a\n\nb"), vec!["a", "", "b"]);
}

#[test]
fn str_eq_compares_characters() {
    assert!(str_eq("alice", "alice"));
    assert!(!str_eq("alice", "alicf"));
    assert!(!str_eq("alice", "alic"));
    assert!(str_eq("", ""));
}
