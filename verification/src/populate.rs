//! The lazy population engine: provider listings, already split into
//! plain name lists, become account, repository, and file entries of the
//! registry. The caller invokes the external listing provider and hands
//! its output in; re-running a population is harmless because the
//! registry's insert is idempotent.

use vstd::prelude::*;

use crate::fs::GithubVirtualFileSystem;
use crate::paths::format_repository_name;
use crate::paths::repo_of;
use crate::paths::repo_seg;
use crate::paths::spec_classify;
use crate::paths::str_eq;
use crate::paths::GithubVirtualFileSystemPath;
use crate::registry::contains_path;
use crate::registry::distinct_paths;
use crate::registry::spec_insert;
use crate::registry::AttributeRecord;
use crate::registry::EntityKind;
use crate::registry::RegistryView;

verus! {

/// Whether an account name is reserved and never populated (a
/// filesystem metadata directory name probed by tools, not a real
/// account).
pub open spec fn spec_ignored_account(name: Seq<char>) -> bool {
    name == ".git"@
}

/// Reserved account names are ignored by population.
pub fn account_is_ignored(name: &str) -> (r: bool)
    ensures
        r == spec_ignored_account(name@),
{
    str_eq(name, ".git")
}

/// The attribute record a freshly populated entry is created with: a
/// directory with mode 644 whose size field informally carries the
/// length of the entry's own name.
pub open spec fn populated_attr(name_len: nat, now: u64) -> AttributeRecord {
    AttributeRecord {
        kind: EntityKind::Directory,
        perm: 0o644,
        size: name_len as u64,
        timestamp: now,
    }
}

/// Inserting the repository entries of one account listing, in order:
/// each nonempty name `r` becomes the key `user/r`; empty names are
/// discarded.
pub open spec fn spec_populate_repos(
    v: RegistryView,
    user: Seq<char>,
    repos: Seq<Seq<char>>,
    now: u64,
) -> RegistryView
    decreases repos.len(),
{
    if repos.len() == 0 {
        v
    } else {
        let v1 = spec_populate_repos(v, user, repos.drop_last(), now);
        let r = repos.last();
        if r.len() == 0 {
            v1
        } else {
            spec_insert(v1, user + seq!['/'] + r, populated_attr(r.len(), now)).0
        }
    }
}

/// Populating an account: a no-op for reserved names; otherwise the
/// account entry itself is inserted, then one repository entry per
/// nonempty listed name.
pub open spec fn spec_populate_account(
    v: RegistryView,
    user: Seq<char>,
    repos: Seq<Seq<char>>,
    now: u64,
) -> RegistryView {
    if spec_ignored_account(user) {
        v
    } else {
        spec_populate_repos(
            spec_insert(v, user, populated_attr(user.len(), now)).0,
            user,
            repos,
            now,
        )
    }
}

/// Populating a repository's file tree: every nonempty listed path `f`
/// becomes the key `repo_path/f`, each carrying the repository name's
/// length as its informal size; empty listing lines (splitting
/// artifacts, not file paths) are discarded.
pub open spec fn spec_populate_files(
    v: RegistryView,
    repo_path: Seq<char>,
    files: Seq<Seq<char>>,
    now: u64,
) -> RegistryView
    decreases files.len(),
{
    if files.len() == 0 {
        v
    } else {
        let v1 = spec_populate_files(v, repo_path, files.drop_last(), now);
        if files.last().len() == 0 {
            v1
        } else {
            spec_insert(
                v1,
                repo_path + seq!['/'] + files.last(),
                populated_attr(repo_seg(repo_path).len(), now),
            ).0
        }
    }
}

/// What inserting a repository listing does to the set of known paths:
/// every key `user/r` of a nonempty listed name `r` is known
/// afterwards, exactly the previously known paths stay known, and every
/// existing slot — its path, its inode, its record — is untouched.
pub proof fn lemma_populate_repos_effect(
    v: RegistryView,
    user: Seq<char>,
    repos: Seq<Seq<char>>,
    now: u64,
)
    requires
        distinct_paths(v),
    ensures
        ({
            let v2 = spec_populate_repos(v, user, repos, now);
            &&& distinct_paths(v2)
            &&& v.len() <= v2.len() <= v.len() + repos.len()
            &&& forall|i: int| 0 <= i < v.len() ==> v2[i] == v[i]
            &&& forall|k: int|
                0 <= k < repos.len() && repos[k].len() > 0 ==> contains_path(
                    v2,
                    user + seq!['/'] + #[trigger] repos[k],
                )
            &&& forall|q: Seq<char>|
                #[trigger] contains_path(v2, q) <==> contains_path(v, q) || (exists|k: int|
                    0 <= k < repos.len() && (#[trigger] repos[k]).len() > 0 && q == user
                        + seq!['/'] + repos[k])
        }),
    decreases repos.len(),
{
    let v2 = spec_populate_repos(v, user, repos, now);
    if repos.len() == 0 {
        assert forall|q: Seq<char>| #[trigger]
            contains_path(v2, q) <==> contains_path(v, q) || (exists|k: int|
                0 <= k < repos.len() && (#[trigger] repos[k]).len() > 0 && q == user + seq!['/']
                    + repos[k]) by {}
    } else {
        let prev = repos.drop_last();
        let v1 = spec_populate_repos(v, user, prev, now);
        let r = repos.last();
        lemma_populate_repos_effect(v, user, prev, now);
        assert(forall|k: int| 0 <= k < prev.len() ==> prev[k] == #[trigger] repos[k]);
        if r.len() == 0 {
            assert(v2 == v1);
            assert forall|q: Seq<char>| #[trigger]
                contains_path(v2, q) <==> contains_path(v, q) || (exists|k: int|
                    0 <= k < repos.len() && (#[trigger] repos[k]).len() > 0 && q == user
                        + seq!['/'] + repos[k]) by {
                if contains_path(v2, q) && !contains_path(v, q) {
                    let k = choose|k: int|
                        0 <= k < prev.len() && (#[trigger] prev[k]).len() > 0 && q == user
                            + seq!['/'] + prev[k];
                    assert(repos[k].len() > 0 && q == user + seq!['/'] + repos[k]);
                }
                if exists|k: int|
                    0 <= k < repos.len() && (#[trigger] repos[k]).len() > 0 && q == user
                        + seq!['/'] + repos[k] {
                    let k = choose|k: int|
                        0 <= k < repos.len() && (#[trigger] repos[k]).len() > 0 && q == user
                            + seq!['/'] + repos[k];
                    assert(k < prev.len() && prev[k] == repos[k]);
                    assert(contains_path(v1, q));
                }
            }
        } else {
            let key = user + seq!['/'] + r;
            crate::registry::lemma_spec_insert_effect(v1, key, populated_attr(r.len(), now));
            assert(v2 == spec_insert(v1, key, populated_attr(r.len(), now)).0);
            assert forall|k: int|
                0 <= k < repos.len() && (#[trigger] repos[k]).len() > 0 implies contains_path(
                v2,
                user + seq!['/'] + repos[k],
            ) by {
                if k < prev.len() {
                    assert(contains_path(v1, user + seq!['/'] + prev[k]));
                    assert(contains_path(v2, user + seq!['/'] + repos[k]));
                } else {
                    assert(repos[k] == r);
                    assert(contains_path(v2, key));
                }
            }
            assert forall|q: Seq<char>| #[trigger]
                contains_path(v2, q) <==> contains_path(v, q) || (exists|k: int|
                    0 <= k < repos.len() && (#[trigger] repos[k]).len() > 0 && q == user
                        + seq!['/'] + repos[k]) by {
                if contains_path(v2, q) && !contains_path(v, q) {
                    if q == key {
                        assert(repos[repos.len() - 1].len() > 0 && q == user + seq!['/']
                            + repos[repos.len() - 1]);
                    } else {
                        assert(contains_path(v1, q));
                        let k = choose|k: int|
                            0 <= k < prev.len() && (#[trigger] prev[k]).len() > 0 && q == user
                                + seq!['/'] + prev[k];
                        assert(repos[k].len() > 0 && q == user + seq!['/'] + repos[k]);
                    }
                }
                if exists|k: int|
                    0 <= k < repos.len() && (#[trigger] repos[k]).len() > 0 && q == user
                        + seq!['/'] + repos[k] {
                    let k = choose|k: int|
                        0 <= k < repos.len() && (#[trigger] repos[k]).len() > 0 && q == user
                            + seq!['/'] + repos[k];
                    assert(contains_path(v2, user + seq!['/'] + repos[k]));
                }
            }
        }
    }
}

/// Lazy population effect: after populating a non-reserved account, the
/// account entry and one entry per nonempty listed repository name are
/// known; nothing else became known (in particular no entry for an
/// empty name), and every previously known slot — its path, its inode,
/// its record — is untouched.
pub proof fn lemma_populate_account_effect(
    v: RegistryView,
    user: Seq<char>,
    repos: Seq<Seq<char>>,
    now: u64,
)
    requires
        distinct_paths(v),
        !spec_ignored_account(user),
    ensures
        ({
            let v2 = spec_populate_account(v, user, repos, now);
            &&& distinct_paths(v2)
            &&& v.len() <= v2.len() <= v.len() + 1 + repos.len()
            &&& forall|i: int| 0 <= i < v.len() ==> v2[i] == v[i]
            &&& contains_path(v2, user)
            &&& forall|k: int|
                0 <= k < repos.len() && repos[k].len() > 0 ==> contains_path(
                    v2,
                    user + seq!['/'] + #[trigger] repos[k],
                )
            &&& forall|q: Seq<char>|
                #[trigger] contains_path(v2, q) <==> contains_path(v, q) || q == user || (
                exists|k: int|
                    0 <= k < repos.len() && (#[trigger] repos[k]).len() > 0 && q == user
                        + seq!['/'] + repos[k])
        }),
{
    let v1 = spec_insert(v, user, populated_attr(user.len(), now)).0;
    crate::registry::lemma_spec_insert_effect(v, user, populated_attr(user.len(), now));
    lemma_populate_repos_effect(v1, user, repos, now);
    let v2 = spec_populate_account(v, user, repos, now);
    assert(contains_path(v2, user)) by {
        assert(contains_path(v1, user));
    }
}

impl GithubVirtualFileSystem {
    /// Insert the account entry for `username` and one repository entry
    /// per nonempty name of `repositories` (the provider's listing for
    /// that account, already split into lines). Reserved account names
    /// are a no-op. Idempotent through the registry's insert: nothing
    /// already present is changed or renumbered.
    pub fn populate_account(&mut self, username: &str, repositories: &Vec<String>, now: u64)
        requires
            old(self).wf(),
            old(self).registry@.len() + repositories@.len() < u64::MAX,
        ensures
            final(self).wf(),
            final(self).registry@ == spec_populate_account(
                old(self).registry@,
                username@,
                repositories.deep_view(),
                now,
            ),
    {
        if account_is_ignored(username) {
            return;
        }
        let uattr = AttributeRecord {
            kind: EntityKind::Directory,
            perm: 0o644,
            size: username.unicode_len() as u64,
            timestamp: now,
        };
        let ghost v0 = self.registry@;
        self.registry.insert(username, uattr);
        let ghost v1 = self.registry@;
        let n = repositories.len();
        let mut i: usize = 0;
        while i < n
            invariant
                i <= n,
                n == repositories@.len(),
                self.wf(),
                v0.len() + repositories@.len() < u64::MAX,
                v1 == spec_insert(v0, username@, populated_attr(username@.len(), now)).0,
                self.registry@ == spec_populate_repos(
                    v1,
                    username@,
                    repositories.deep_view().subrange(0, i as int),
                    now,
                ),
                self.registry@.len() <= v0.len() + 1 + i,
            decreases n - i,
        {
            let ghost rs = repositories.deep_view();
            let rlen = repositories[i].unicode_len();
            if rlen > 0 {
                let key = format_repository_name(username, repositories[i].as_str());
                let rattr = AttributeRecord {
                    kind: EntityKind::Directory,
                    perm: 0o644,
                    size: rlen as u64,
                    timestamp: now,
                };
                self.registry.insert(key.as_str(), rattr);
            }
            proof {
                assert(rs.subrange(0, i + 1).drop_last() =~= rs.subrange(0, i as int));
                assert(rs[i as int] == repositories@[i as int]@);
            }
            i = i + 1;
        }
        proof {
            assert(repositories.deep_view().subrange(0, n as int) =~= repositories.deep_view());
        }
    }

    /// Insert one file entry per nonempty listed tree path of the
    /// repository at `full_repository_name`, each keyed
    /// `account/repository/path`; empty listing lines are discarded.
    /// A distinct, explicitly invoked operation: directory listing does
    /// not trigger it.
    pub fn populate_repository_files(
        &mut self,
        full_repository_name: &str,
        files: &Vec<String>,
        now: u64,
    )
        requires
            old(self).wf(),
            spec_classify(full_repository_name@) == GithubVirtualFileSystemPath::Repository,
            old(self).registry@.len() + files@.len() < u64::MAX,
        ensures
            final(self).wf(),
            final(self).registry@ == spec_populate_files(
                old(self).registry@,
                full_repository_name@,
                files.deep_view(),
                now,
            ),
    {
        let rname = repo_of(full_repository_name);
        let rlen = rname.unicode_len();
        let ghost v0 = self.registry@;
        let n = files.len();
        let mut i: usize = 0;
        while i < n
            invariant
                i <= n,
                n == files@.len(),
                self.wf(),
                v0.len() + files@.len() < u64::MAX,
                rlen == repo_seg(full_repository_name@).len(),
                self.registry@ == spec_populate_files(
                    v0,
                    full_repository_name@,
                    files.deep_view().subrange(0, i as int),
                    now,
                ),
                self.registry@.len() <= v0.len() + i,
            decreases n - i,
        {
            let ghost fs = files.deep_view();
            if files[i].unicode_len() > 0 {
                let key = format_repository_name(full_repository_name, files[i].as_str());
                let fattr = AttributeRecord {
                    kind: EntityKind::Directory,
                    perm: 0o644,
                    size: rlen as u64,
                    timestamp: now,
                };
                self.registry.insert(key.as_str(), fattr);
            }
            proof {
                assert(fs.subrange(0, i + 1).drop_last() =~= fs.subrange(0, i as int));
                assert(fs[i as int] == files@[i as int]@);
            }
            i = i + 1;
        }
        proof {
            assert(files.deep_view().subrange(0, n as int) =~= files.deep_view());
        }
    }
}

} // verus!
