//! The virtual filesystem engine: the identity registry plus the lazy
//! population, materialization, and protocol-adapter operations, all
//! phrased over plain values. Callers perform the actual provider
//! invocations, disk checks, and kernel replies, and hand the results in.

use vstd::prelude::*;

use crate::paths::GithubVirtualFileSystemPath;
use crate::paths::account_of;
use crate::paths::account_seg;
use crate::paths::classify;
use crate::paths::lemma_account_whole;
use crate::paths::lemma_join_segments;
use crate::paths::lemma_slash_count_add;
use crate::paths::lemma_slash_count_single;
use crate::paths::lemma_slash_count_zero;
use crate::paths::lemma_split_repository;
use crate::paths::repo_of;
use crate::paths::repo_seg;
use crate::paths::slash_count;
use crate::paths::spec_classify;
use crate::paths::str_eq;
use crate::registry::AttributeRecord;
use crate::registry::EntityKind;
use crate::registry::Registry;
use crate::registry::RegistryView;

verus! {

/// The known entries grouped by the classification of their paths:
/// accounts, repositories, and files, each as (full path, inode) pairs
/// in inode order. The root entry belongs to none of the groups.
pub struct InodesTypes {
    pub accounts: Vec<(String, u64)>,
    pub repositories: Vec<(String, u64)>,
    pub files: Vec<(String, u64)>,
}

/// The (path, inode) pairs of the slots of `v` whose path classifies as
/// `k`, in inode order.
pub open spec fn kind_entries(v: RegistryView, k: GithubVirtualFileSystemPath) -> Seq<
    (Seq<char>, u64),
>
    decreases v.len(),
{
    if v.len() == 0 {
        Seq::empty()
    } else {
        let rest = kind_entries(v.drop_last(), k);
        if spec_classify(v.last().0) == k {
            rest.push((v.last().0, v.len() as u64))
        } else {
            rest
        }
    }
}

/// The (path, inode) pairs of the repository entries of `v` whose
/// account segment is `acct`, in inode order.
pub open spec fn account_repo_entries(v: RegistryView, acct: Seq<char>) -> Seq<(Seq<char>, u64)>
    decreases v.len(),
{
    if v.len() == 0 {
        Seq::empty()
    } else {
        let rest = account_repo_entries(v.drop_last(), acct);
        if spec_classify(v.last().0) == GithubVirtualFileSystemPath::Repository && account_seg(
            v.last().0,
        ) == acct {
            rest.push((v.last().0, v.len() as u64))
        } else {
            rest
        }
    }
}

/// The (path, inode) pairs of the file entries of `v` under the
/// repository `acct/rname`, in inode order.
pub open spec fn repo_file_entries(v: RegistryView, acct: Seq<char>, rname: Seq<char>) -> Seq<
    (Seq<char>, u64),
>
    decreases v.len(),
{
    if v.len() == 0 {
        Seq::empty()
    } else {
        let rest = repo_file_entries(v.drop_last(), acct, rname);
        if spec_classify(v.last().0) == GithubVirtualFileSystemPath::File && account_seg(
            v.last().0,
        ) == acct && repo_seg(v.last().0) == rname {
            rest.push((v.last().0, v.len() as u64))
        } else {
            rest
        }
    }
}

/// Every entry listed by `account_repo_entries` is a repository entry
/// under `acct` occupying the slot its inode names.
pub proof fn lemma_account_repo_entries_props(v: RegistryView, acct: Seq<char>)
    requires
        v.len() <= u64::MAX,
    ensures
        forall|i: int|
            0 <= i < account_repo_entries(v, acct).len() ==> {
                let e = #[trigger] account_repo_entries(v, acct)[i];
                &&& spec_classify(e.0) == GithubVirtualFileSystemPath::Repository
                &&& account_seg(e.0) == acct
                &&& 1 <= e.1 <= v.len()
                &&& v[e.1 as int - 1].0 == e.0
            },
    decreases v.len(),
{
    if v.len() > 0 {
        lemma_account_repo_entries_props(v.drop_last(), acct);
        assert forall|i: int| 0 <= i < account_repo_entries(v, acct).len() implies {
            let e = #[trigger] account_repo_entries(v, acct)[i];
            &&& spec_classify(e.0) == GithubVirtualFileSystemPath::Repository
            &&& account_seg(e.0) == acct
            &&& 1 <= e.1 <= v.len()
            &&& v[e.1 as int - 1].0 == e.0
        } by {
            let rest = account_repo_entries(v.drop_last(), acct);
            if i < rest.len() {
                assert(account_repo_entries(v, acct)[i] == rest[i]);
                assert(v.drop_last()[rest[i].1 as int - 1] == v[rest[i].1 as int - 1]);
            }
        }
    }
}

/// Every repository slot of `v` under `acct` appears in
/// `account_repo_entries`.
pub proof fn lemma_account_repo_entries_complete(v: RegistryView, acct: Seq<char>, j: int)
    requires
        0 <= j < v.len(),
        spec_classify(v[j].0) == GithubVirtualFileSystemPath::Repository,
        account_seg(v[j].0) == acct,
    ensures
        exists|i: int|
            0 <= i < account_repo_entries(v, acct).len() && #[trigger] account_repo_entries(
                v,
                acct,
            )[i] == (v[j].0, (j + 1) as u64),
    decreases v.len(),
{
    let es = account_repo_entries(v, acct);
    if j == v.len() - 1 {
        assert(es[es.len() - 1] == (v[j].0, (j + 1) as u64));
    } else {
        assert(v.drop_last()[j] == v[j]);
        lemma_account_repo_entries_complete(v.drop_last(), acct, j);
        let rest = account_repo_entries(v.drop_last(), acct);
        let i = choose|i: int| 0 <= i < rest.len() && #[trigger] rest[i] == (v[j].0, (j + 1) as u64);
        assert(es[i] == (v[j].0, (j + 1) as u64));
    }
}

/// The error codes a filesystem request can be answered with.
#[derive(Clone, Copy, Debug, PartialEq, Eq, Structural)]
pub enum FsError {
    NotFound,
    AlreadyExists,
    NotImplemented,
    PermissionDenied,
}

/// What listing a directory inode yields: permission-denied at the root
/// (and for unknown, root-equivalent inodes), the repository entries
/// under an account shown by their repository names, the file entries
/// under a repository shown by their full path keys, and nothing below
/// a file entry.
pub open spec fn spec_readdir(v: RegistryView, path: Seq<char>) -> Result<
    Seq<(u64, Seq<char>)>,
    FsError,
> {
    match spec_classify(path) {
        GithubVirtualFileSystemPath::Root => Err(FsError::PermissionDenied),
        GithubVirtualFileSystemPath::Account => Ok(
            account_repo_entries(v, account_seg(path)).map_values(
                |e: (Seq<char>, u64)| (e.1, repo_seg(e.0)),
            ),
        ),
        GithubVirtualFileSystemPath::Repository => Ok(
            repo_file_entries(v, account_seg(path), repo_seg(path)).map_values(
                |e: (Seq<char>, u64)| (e.1, e.0),
            ),
        ),
        GithubVirtualFileSystemPath::File => Ok(Seq::empty()),
    }
}

/// The attribute record given to the root entry at mount time.
pub open spec fn root_attributes(now: u64) -> AttributeRecord {
    AttributeRecord { kind: EntityKind::Directory, perm: 0o755, size: 0, timestamp: now }
}

/// The fixed piece between the home directory and the full path in every
/// link target.
pub open spec fn cache_infix() -> Seq<char> {
    "/.config/gh_mount/"@
}

/// The virtual filesystem: a lazily populated namespace of account,
/// repository, and file entries over the identity registry.
pub struct GithubVirtualFileSystem {
    pub registry: Registry,
}

impl GithubVirtualFileSystem {
    pub open spec fn wf(self) -> bool {
        self.registry.wf()
    }

    /// A fresh filesystem knowing only the root directory at inode 1.
    pub fn new(now: u64) -> (r: GithubVirtualFileSystem)
        ensures
            r.wf(),
            r.registry@ =~= seq![(seq!['/'], root_attributes(now))],
    {
        let attr = AttributeRecord {
            kind: EntityKind::Directory,
            perm: 0o755,
            size: 0,
            timestamp: now,
        };
        GithubVirtualFileSystem { registry: Registry::new(attr) }
    }

    /// The full path of an inode and its classification. An unknown
    /// inode resolves to the empty sentinel path, which classifies as
    /// root-equivalent.
    pub fn classify_inode(&self, ino: u64) -> (r: (GithubVirtualFileSystemPath, String))
        ensures
            r.1@ == self.registry.spec_resolve_path(ino),
            r.0 == spec_classify(self.registry.spec_resolve_path(ino)),
    {
        let path = self.registry.resolve_path(ino);
        let kind = classify(path.as_str());
        (kind, path)
    }

    /// The attribute record of an inode, if it is known.
    pub fn get_attributes(&self, ino: u64) -> (r: Option<AttributeRecord>)
        ensures
            r == self.registry.spec_get_attributes(ino),
    {
        self.registry.get_attributes(ino)
    }

    /// The symbolic-link target of an inode: a fixed, deterministic
    /// function of the full path under the local cache root, independent
    /// of whether materialization ever ran.
    pub fn link_target(&self, home: &str, ino: u64) -> (r: String)
        ensures
            r@ == home@ + cache_infix() + self.registry.spec_resolve_path(ino),
    {
        let path = self.registry.resolve_path(ino);
        let mut r = home.to_owned();
        r.append("/.config/gh_mount/");
        r.append(path.as_str());
        r
    }

    /// The attribute record a lookup answers with: the registry record,
    /// its kind promoted to symbolic-link when the entry is a repository
    /// whose would-be cache path already exists on disk (the caller
    /// checks the disk and passes the result in).
    pub fn lookup_entry(&self, ino: u64, cache_path_exists: bool) -> (r: Option<
        AttributeRecord,
    >)
        ensures
            match self.registry.spec_get_attributes(ino) {
                Option::None => r is None,
                Option::Some(a) => r == Some(
                    if spec_classify(self.registry.spec_resolve_path(ino))
                        == GithubVirtualFileSystemPath::Repository && cache_path_exists {
                        AttributeRecord { kind: EntityKind::Symlink, ..a }
                    } else {
                        a
                    },
                ),
            },
    {
        match self.registry.get_attributes(ino) {
            Option::None => Option::None,
            Option::Some(a) => {
                let (kind, _path) = self.classify_inode(ino);
                let promote = (kind == GithubVirtualFileSystemPath::Repository)
                    && cache_path_exists;
                if promote {
                    Option::Some(AttributeRecord { kind: EntityKind::Symlink, ..a })
                } else {
                    Option::Some(a)
                }
            },
        }
    }

    /// Whether an access check on `ino` must materialize, and if so at
    /// which local cache path: repositories are cloned to the
    /// deterministic target under the caller's home directory, other
    /// kinds need nothing.
    pub fn materialization_target(&self, home: &str, ino: u64) -> (r: Option<String>)
        ensures
            spec_classify(self.registry.spec_resolve_path(ino))
                == GithubVirtualFileSystemPath::Repository ==> (r matches Some(t) && t@ == home@
                + cache_infix() + self.registry.spec_resolve_path(ino)),
            spec_classify(self.registry.spec_resolve_path(ino))
                != GithubVirtualFileSystemPath::Repository ==> r is None,
            r is Some ==> 1 <= ino <= self.registry@.len(),
    {
        let (kind, _path) = self.classify_inode(ino);
        if kind == GithubVirtualFileSystemPath::Repository {
            Option::Some(self.link_target(home, ino))
        } else {
            Option::None
        }
    }

    /// After the clone step, flip the repository entry's record to a
    /// symbolic link; every other slot is untouched.
    pub fn promote_to_symlink(&mut self, ino: u64)
        requires
            old(self).wf(),
            1 <= ino <= old(self).registry@.len(),
        ensures
            final(self).wf(),
            final(self).registry@.len() == old(self).registry@.len(),
            final(self).registry@[ino as int - 1].0 == old(self).registry@[ino as int - 1].0,
            final(self).registry@[ino as int - 1].1 == (AttributeRecord {
                kind: EntityKind::Symlink,
                ..old(self).registry@[ino as int - 1].1
            }),
            forall|i: int|
                0 <= i < old(self).registry@.len() && i != ino as int - 1
                    ==> final(self).registry@[i] == old(self).registry@[i],
    {
        self.registry.set_kind(ino, EntityKind::Symlink);
    }

    /// The inode of the account entry named `name`, or 0 if no such
    /// entry is known (0 is never an assigned inode).
    pub fn find_account_inode(&self, name: &str) -> (r: u64)
        requires
            self.wf(),
        ensures
            spec_classify(name@) == GithubVirtualFileSystemPath::Account
                && self.registry.spec_contains(name@) ==> Some(r)
                == self.registry.spec_resolve_inode(name@) && r >= 1,
            !(spec_classify(name@) == GithubVirtualFileSystemPath::Account
                && self.registry.spec_contains(name@)) ==> r == 0,
    {
        let kind = classify(name);
        if !(kind == GithubVirtualFileSystemPath::Account) {
            return 0;
        }
        match self.registry.resolve_inode(name) {
            Option::Some(ino) => ino,
            Option::None => 0,
        }
    }

    /// Resolve a child `name` under a parent inode: under the root this
    /// finds the account entry so named (after the caller has populated
    /// it); under an account it finds the repository entry so named;
    /// below a repository no name lookup is defined. 0 means not found.
    pub fn resolve_lookup(&self, parent: u64, name: &str) -> (r: u64)
        requires
            self.wf(),
        ensures
            ({
                let ppath = self.registry.spec_resolve_path(parent);
                match spec_classify(ppath) {
                    GithubVirtualFileSystemPath::Root => {
                        &&& (spec_classify(name@) == GithubVirtualFileSystemPath::Account
                            && self.registry.spec_contains(name@) ==> Some(r)
                            == self.registry.spec_resolve_inode(name@) && r >= 1)
                        &&& (!(spec_classify(name@) == GithubVirtualFileSystemPath::Account
                            && self.registry.spec_contains(name@)) ==> r == 0)
                    },
                    GithubVirtualFileSystemPath::Account => {
                        let key = ppath + seq!['/'] + name@;
                        &&& (spec_classify(key) == GithubVirtualFileSystemPath::Repository
                            && self.registry.spec_contains(key) ==> Some(r)
                            == self.registry.spec_resolve_inode(key) && r >= 1)
                        &&& (!(spec_classify(key) == GithubVirtualFileSystemPath::Repository
                            && self.registry.spec_contains(key)) ==> r == 0)
                    },
                    GithubVirtualFileSystemPath::Repository => r == 0,
                    GithubVirtualFileSystemPath::File => r == 0,
                }
            }),
    {
        let (kind, ppath) = self.classify_inode(parent);
        match kind {
            GithubVirtualFileSystemPath::Root => self.find_account_inode(name),
            GithubVirtualFileSystemPath::Account => {
                let ghost key = ppath@ + seq!['/'] + name@;
                proof {
                    lemma_account_whole(ppath@);
                }
                let repos = self.repositories_of_account(ppath.as_str());
                let ghost es = account_repo_entries(self.registry@, ppath@);
                proof {
                    lemma_account_repo_entries_props(self.registry@, ppath@);
                }
                let m = repos.len();
                let mut k: usize = 0;
                while k < m
                    invariant
                        k <= m,
                        m == es.len(),
                        self.wf(),
                        repos.deep_view() == es,
                        es == account_repo_entries(self.registry@, ppath@),
                        ppath@ == self.registry.spec_resolve_path(parent),
                        spec_classify(ppath@) == GithubVirtualFileSystemPath::Account,
                        forall|j: int|
                            0 <= j < es.len() ==> {
                                let e = #[trigger] es[j];
                                &&& spec_classify(e.0)
                                    == GithubVirtualFileSystemPath::Repository
                                &&& account_seg(e.0) == ppath@
                                &&& 1 <= e.1 <= self.registry@.len()
                                &&& self.registry@[e.1 as int - 1].0 == e.0
                            },
                        forall|j: int| 0 <= j < k ==> repo_seg(#[trigger] es[j].0) != name@,
                    decreases m - k,
                {
    proof {
                        assert(repos.deep_view()[k as int] == (
                            repos@[k as int].0@,
                            repos@[k as int].1,
                        ));
                        assert(es[k as int].0 == repos@[k as int].0@);
                        assert(es[k as int].1 == repos@[k as int].1);
                    }
                    let rs = repo_of(repos[k].0.as_str());
                    if str_eq(rs.as_str(), name) {
                        let ino = repos[k].1;
                        proof {
                            lemma_split_repository(es[k as int].0);
                            assert(repo_seg(es[k as int].0) == name@);
                            assert(account_seg(es[k as int].0) == ppath@);
                            assert(es[k as int].0 =~= ppath@ + seq!['/'] + name@);
                            crate::registry::lemma_index_of_path_unique(
                                self.registry@,
                                ppath@ + seq!['/'] + name@,
                                es[k as int].1 as int - 1,
                            );
                        }
                        return ino;
                    }
                    k = k + 1;
                }
                proof {
                    if spec_classify(key) == GithubVirtualFileSystemPath::Repository
                        && self.registry.spec_contains(key) {
                        lemma_slash_count_single();
                        lemma_slash_count_add(ppath@, seq!['/']);
                        lemma_slash_count_add(ppath@ + seq!['/'], name@);
                        assert((ppath@ + seq!['/']) + name@ =~= key);
                        assert(slash_count(name@) == 0);
                        lemma_join_segments(ppath@, name@);
                        let j = choose|j: int|
                            0 <= j < self.registry@.len() && self.registry@[j].0 == key;
                        lemma_account_repo_entries_complete(self.registry@, ppath@, j);
                        let i = choose|i: int|
                            0 <= i < es.len() && #[trigger] es[i] == (key, (j + 1) as u64);
                        assert(repo_seg(es[i].0) == name@);
                        assert(false);
                    }
                }
                0
            },
            GithubVirtualFileSystemPath::Repository => 0,
            GithubVirtualFileSystemPath::File => 0,
        }
    }

    /// The listing a read-directory request is answered with: pairs of
    /// an entry's inode and its displayed name. Listing under the root
    /// (or an unknown inode) is permission-denied; an account lists its
    /// repository entries by repository name; a repository lists its
    /// file entries by full path key; a file entry lists nothing.
    pub fn readdir_entries(&self, ino: u64) -> (r: Result<Vec<(u64, String)>, FsError>)
        requires
            self.wf(),
        ensures
            ({
                match spec_readdir(self.registry@, self.registry.spec_resolve_path(ino)) {
                    Ok(ss) => r matches Ok(list) && list.deep_view() == ss,
                    Err(e) => r matches Err(e2) && e2 == e,
                }
            }),
    {
        let (kind, path) = self.classify_inode(ino);
        match kind {
            GithubVirtualFileSystemPath::Root => Err(FsError::PermissionDenied),
            GithubVirtualFileSystemPath::Account => {
                let repos = self.repositories_of_account(path.as_str());
                let ghost es = account_repo_entries(self.registry@, account_seg(path@));
                proof {
                    lemma_account_repo_entries_props(self.registry@, account_seg(path@));
                }
                let m = repos.len();
                let mut out: Vec<(u64, String)> = Vec::new();
                let mut k: usize = 0;
                while k < m
                    invariant
                        k <= m,
                        m == es.len(),
                        repos.deep_view() == es,
                        out@.len() == k,
                        forall|j: int|
                            0 <= j < k ==> out.deep_view()[j] == (
                                es[j].1,
                                repo_seg(#[trigger] es[j].0),
                            ),
                        forall|j: int|
                            0 <= j < es.len() ==> spec_classify(#[trigger] es[j].0)
                                == GithubVirtualFileSystemPath::Repository,
                    decreases m - k,
                {
                    proof {
                        assert(repos.deep_view()[k as int] == (
                            repos@[k as int].0@,
                            repos@[k as int].1,
                        ));
                        assert(spec_classify(es[k as int].0)
                            == GithubVirtualFileSystemPath::Repository);
                        assert(repos@[k as int].0@ == es[k as int].0);
                        assert(slash_count(repos@[k as int].0@) == 1);
                    }
                    let rs = repo_of(repos[k].0.as_str());
                    out.push((repos[k].1, rs));
                    k = k + 1;
                }
                proof {
                    assert(out.deep_view() =~= es.map_values(
                        |e: (Seq<char>, u64)| (e.1, repo_seg(e.0)),
                    ));
                }
                Ok(out)
            },
            GithubVirtualFileSystemPath::Repository => {
                let files = self.files_of_repository(path.as_str());
                let ghost es = repo_file_entries(
                    self.registry@,
                    account_seg(path@),
                    repo_seg(path@),
                );
                let m = files.len();
                let mut out: Vec<(u64, String)> = Vec::new();
                let mut k: usize = 0;
                while k < m
                    invariant
                        k <= m,
                        m == es.len(),
                        files.deep_view() == es,
                        out@.len() == k,
                        forall|j: int|
                            0 <= j < k ==> out.deep_view()[j] == (es[j].1, #[trigger] es[j].0),
                    decreases m - k,
                {
                    proof {
                        assert(files.deep_view()[k as int] == (
                            files@[k as int].0@,
                            files@[k as int].1,
                        ));
                    }
                    let name = files[k].0.clone();
                    out.push((files[k].1, name));
                    k = k + 1;
                }
                proof {
                    assert(out.deep_view() =~= es.map_values(
                        |e: (Seq<char>, u64)| (e.1, e.0),
                    ));
                }
                Ok(out)
            },
            GithubVirtualFileSystemPath::File => {
                let out: Vec<(u64, String)> = Vec::new();
                proof {
                    assert(out.deep_view() =~= Seq::<(u64, Seq<char>)>::empty());
                }
                Ok(out)
            },
        }
    }

    /// The derived view grouping every known entry by the
    /// classification of its path; recomputed on each call.
    pub fn partition_by_kind(&self) -> (r: InodesTypes)
        requires
            self.wf(),
        ensures
            r.accounts.deep_view() == kind_entries(
                self.registry@,
                GithubVirtualFileSystemPath::Account,
            ),
            r.repositories.deep_view() == kind_entries(
                self.registry@,
                GithubVirtualFileSystemPath::Repository,
            ),
            r.files.deep_view() == kind_entries(
                self.registry@,
                GithubVirtualFileSystemPath::File,
            ),
    {
        let n = self.registry.size();
        let mut accounts: Vec<(String, u64)> = Vec::new();
        let mut repositories: Vec<(String, u64)> = Vec::new();
        let mut files: Vec<(String, u64)> = Vec::new();
        let mut i: usize = 0;
        while i < n
            invariant
                i <= n,
                n == self.registry@.len(),
                self.wf(),
                accounts.deep_view() == kind_entries(
                    self.registry@.subrange(0, i as int),
                    GithubVirtualFileSystemPath::Account,
                ),
                repositories.deep_view() == kind_entries(
                    self.registry@.subrange(0, i as int),
                    GithubVirtualFileSystemPath::Repository,
                ),
                files.deep_view() == kind_entries(
                    self.registry@.subrange(0, i as int),
                    GithubVirtualFileSystemPath::File,
                ),
            decreases n - i,
        {
            let path = self.registry.path_at(i);
            let kind = classify(path.as_str());
            let ghost accounts0 = accounts.deep_view();
            let ghost repositories0 = repositories.deep_view();
            let ghost files0 = files.deep_view();
            let ino = i as u64 + 1;
            match kind {
                GithubVirtualFileSystemPath::Root => {},
                GithubVirtualFileSystemPath::Account => {
                    accounts.push((path.clone(), ino));
                    proof {
                        assert(accounts.deep_view() =~= accounts0.push(
                            (self.registry@[i as int].0, ino),
                        ));
                    }
                },
                GithubVirtualFileSystemPath::Repository => {
                    repositories.push((path.clone(), ino));
                    proof {
                        assert(repositories.deep_view() =~= repositories0.push(
                            (self.registry@[i as int].0, ino),
                        ));
                    }
                },
                GithubVirtualFileSystemPath::File => {
                    files.push((path.clone(), ino));
                    proof {
                        assert(files.deep_view() =~= files0.push(
                            (self.registry@[i as int].0, ino),
                        ));
                    }
                },
            }
            proof {
                assert(self.registry@.subrange(0, i + 1).drop_last() =~= self.registry@.subrange(
                    0,
                    i as int,
                ));
            }
            i = i + 1;
        }
        proof {
            assert(self.registry@.subrange(0, n as int) =~= self.registry@);
        }
        InodesTypes { accounts, repositories, files }
    }

    /// The repository entries under one account: every known entry that
    /// classifies as a repository and whose account segment equals the
    /// first segment of `username_raw` (which may be the bare account
    /// name or any full path starting with it).
    pub fn repositories_of_account(&self, username_raw: &str) -> (r: Vec<(String, u64)>)
        requires
            self.wf(),
        ensures
            r.deep_view() == account_repo_entries(self.registry@, account_seg(username_raw@)),
    {
        let acct = account_of(username_raw);
        let n = self.registry.size();
        let mut out: Vec<(String, u64)> = Vec::new();
        let mut i: usize = 0;
        while i < n
            invariant
                i <= n,
                n == self.registry@.len(),
                self.wf(),
                acct@ == account_seg(username_raw@),
                out.deep_view() == account_repo_entries(
                    self.registry@.subrange(0, i as int),
                    acct@,
                ),
            decreases n - i,
        {
            let path = self.registry.path_at(i);
            let kind = classify(path.as_str());
            let ghost out0 = out.deep_view();
            let ino = i as u64 + 1;
            if kind == GithubVirtualFileSystemPath::Repository {
                let pa = account_of(path.as_str());
                if str_eq(pa.as_str(), acct.as_str()) {
                    out.push((path.clone(), ino));
                    proof {
                        assert(out.deep_view() =~= out0.push(
                            (self.registry@[i as int].0, ino),
                        ));
                    }
                }
            }
            proof {
                assert(self.registry@.subrange(0, i + 1).drop_last() =~= self.registry@.subrange(
                    0,
                    i as int,
                ));
            }
            i = i + 1;
        }
        proof {
            assert(self.registry@.subrange(0, n as int) =~= self.registry@);
        }
        out
    }

    /// The file entries under one repository: every known entry that
    /// classifies as a file and whose first two segments equal those of
    /// `full_repository_name`.
    pub fn files_of_repository(&self, full_repository_name: &str) -> (r: Vec<(String, u64)>)
        requires
            self.wf(),
            spec_classify(full_repository_name@) == GithubVirtualFileSystemPath::Repository,
        ensures
            r.deep_view() == repo_file_entries(
                self.registry@,
                account_seg(full_repository_name@),
                repo_seg(full_repository_name@),
            ),
    {
        let acct = account_of(full_repository_name);
        let rname = repo_of(full_repository_name);
        let n = self.registry.size();
        let mut out: Vec<(String, u64)> = Vec::new();
        let mut i: usize = 0;
        while i < n
            invariant
                i <= n,
                n == self.registry@.len(),
                self.wf(),
                acct@ == account_seg(full_repository_name@),
                rname@ == repo_seg(full_repository_name@),
                out.deep_view() == repo_file_entries(
                    self.registry@.subrange(0, i as int),
                    acct@,
                    rname@,
                ),
            decreases n - i,
        {
            let path = self.registry.path_at(i);
            let kind = classify(path.as_str());
            let ghost out0 = out.deep_view();
            let ino = i as u64 + 1;
            if kind == GithubVirtualFileSystemPath::File {
                let pa = account_of(path.as_str());
                let pr = repo_of(path.as_str());
                if str_eq(pa.as_str(), acct.as_str()) && str_eq(pr.as_str(), rname.as_str()) {
                    out.push((path.clone(), ino));
                    proof {
                        assert(out.deep_view() =~= out0.push(
                            (self.registry@[i as int].0, ino),
                        ));
                    }
                }
            }
            proof {
                assert(self.registry@.subrange(0, i + 1).drop_last() =~= self.registry@.subrange(
                    0,
                    i as int,
                ));
            }
            i = i + 1;
        }
        proof {
            assert(self.registry@.subrange(0, n as int) =~= self.registry@);
        }
        out
    }
}

} // verus!

