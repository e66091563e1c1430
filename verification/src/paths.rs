//! Path classification: a full path is a slash-delimited string key whose
//! segment count decides its kind (root, account, repository, or file
//! inside a repository).

use vstd::prelude::*;

verus! {

/// The kind of a full path in the virtual filesystem namespace.
#[derive(Clone, Copy, Debug, PartialEq, Eq, Structural)]
pub enum GithubVirtualFileSystemPath {
    /// The mount root (`"/"` or the empty sentinel path).
    Root,
    /// One segment: a hosting-account name.
    Account,
    /// Two segments: `account/repository`.
    Repository,
    /// Three or more segments: a path inside a repository tree.
    File,
}

impl GithubVirtualFileSystemPath {
    /// The short label of each kind.
    pub open spec fn spec_label(self) -> Seq<char> {
        match self {
            GithubVirtualFileSystemPath::Root => "none"@,
            GithubVirtualFileSystemPath::Account => "user"@,
            GithubVirtualFileSystemPath::Repository => "repo"@,
            GithubVirtualFileSystemPath::File => "file"@,
        }
    }

    /// A short, fixed label for the path kind.
    pub fn as_str(&self) -> (r: &'static str)
        ensures
            r@ == self.spec_label(),
    {
        match self {
            GithubVirtualFileSystemPath::Root => "none",
            GithubVirtualFileSystemPath::Account => "user",
            GithubVirtualFileSystemPath::Repository => "repo",
            GithubVirtualFileSystemPath::File => "file",
        }
    }
}

/// Index of the first occurrence of `c` in `s`, or `s.len()` if `c` does
/// not occur.
pub open spec fn first_index_of(s: Seq<char>, c: char) -> nat
    decreases s.len(),
{
    if s.len() == 0 {
        0
    } else if s[0] == c {
        0
    } else {
        1 + first_index_of(s.drop_first(), c)
    }
}

/// `first_index_of` is at most the length, nothing before it is `c`, and
/// the character there (if inside the string) is `c`.
pub proof fn lemma_first_index_props(s: Seq<char>, c: char)
    ensures
        first_index_of(s, c) <= s.len(),
        forall|j: int| 0 <= j < first_index_of(s, c) ==> s[j] != c,
        first_index_of(s, c) < s.len() ==> s[first_index_of(s, c) as int] == c,
    decreases s.len(),
{
    if s.len() != 0 && s[0] != c {
        lemma_first_index_props(s.drop_first(), c);
        let f = first_index_of(s, c);
        assert forall|j: int| 0 <= j < f implies s[j] != c by {
            if j > 0 {
                assert(s.drop_first()[j - 1] == s[j]);
            }
        }
    }
}

/// If nothing before `i` is `c` and the character at `i` (if any) is `c`,
/// then `i` is exactly where `first_index_of` points.
pub proof fn lemma_first_index_at(s: Seq<char>, c: char, i: int)
    requires
        0 <= i <= s.len(),
        forall|j: int| 0 <= j < i ==> s[j] != c,
        i < s.len() ==> s[i] == c,
    ensures
        first_index_of(s, c) == if i < s.len() { i as nat } else { s.len() },
    decreases i,
{
    if i > 0 {
        assert(s[0] != c);
        lemma_first_index_at(s.drop_first(), c, i - 1);
    }
}

/// How many `'/'` characters occur in `s`.
pub open spec fn slash_count(s: Seq<char>) -> nat
    decreases s.len(),
{
    if s.len() == 0 {
        0
    } else {
        slash_count(s.drop_last()) + if s.last() == '/' { 1nat } else { 0nat }
    }
}

/// The kind a full path has: the root marker is `Root`; otherwise one
/// slash-delimited segment is an account, two are a repository, and three
/// or more are a file within a repository.
pub open spec fn spec_classify(s: Seq<char>) -> GithubVirtualFileSystemPath {
    if s.len() == 0 || (s.len() == 1 && s[0] == '/') {
        GithubVirtualFileSystemPath::Root
    } else if slash_count(s) == 0 {
        GithubVirtualFileSystemPath::Account
    } else if slash_count(s) == 1 {
        GithubVirtualFileSystemPath::Repository
    } else {
        GithubVirtualFileSystemPath::File
    }
}

/// `slash_count` is zero exactly when no character of `s` is `'/'`.
pub proof fn lemma_slash_count_zero(s: Seq<char>)
    ensures
        slash_count(s) == 0 <==> (forall|j: int| 0 <= j < s.len() ==> s[j] != '/'),
    decreases s.len(),
{
    if s.len() > 0 {
        lemma_slash_count_zero(s.drop_last());
        assert forall|j: int| 0 <= j < s.len() - 1 implies s.drop_last()[j] == s[j] by {}
    }
}

/// Slash counting distributes over concatenation.
pub proof fn lemma_slash_count_add(a: Seq<char>, b: Seq<char>)
    ensures
        slash_count(a + b) == slash_count(a) + slash_count(b),
    decreases b.len(),
{
    if b.len() == 0 {
        assert(a + b =~= a);
    } else {
        assert((a + b).drop_last() =~= a + b.drop_last());
        assert((a + b).last() == b.last());
        lemma_slash_count_add(a, b.drop_last());
    }
}

/// The first slash-delimited segment of `s`: everything before the first
/// `'/'`, or all of `s` if it has none.
pub open spec fn account_seg(s: Seq<char>) -> Seq<char> {
    s.subrange(0, first_index_of(s, '/') as int)
}

/// Everything after the first `'/'` of `s` (meaningful only when `s`
/// contains one).
pub open spec fn tail_after_slash(s: Seq<char>) -> Seq<char> {
    s.subrange(first_index_of(s, '/') as int + 1, s.len() as int)
}

/// The second slash-delimited segment of `s`: for `account/repository`
/// keys this is the repository name.
pub open spec fn repo_seg(s: Seq<char>) -> Seq<char> {
    account_seg(tail_after_slash(s))
}

/// Whether two string slices hold the same characters.
pub fn str_eq(a: &str, b: &str) -> (r: bool)
    ensures
        r == (a@ == b@),
{
    let n = a.unicode_len();
    if n != b.unicode_len() {
        return false;
    }
    let mut i: usize = 0;
    while i < n
        invariant
            i <= n,
            n == a@.len(),
            n == b@.len(),
            forall|j: int| 0 <= j < i ==> a@[j] == b@[j],
        decreases n - i,
    {
        if a.get_char(i) != b.get_char(i) {
            return false;
        }
        i = i + 1;
    }
    proof {
        assert(a@ =~= b@);
    }
    true
}

/// The first segment of `path` as an owned string: the account name of an
/// `account/...` key, or the whole of `path` if it has no `'/'`.
pub fn account_of(path: &str) -> (r: String)
    ensures
        r@ == account_seg(path@),
{
    proof {
        lemma_first_index_props(path@, '/');
    }
    let f = first_index_in(path, '/');
    path.substring_char(0, f).to_owned()
}

/// The second segment of `path` as an owned string: the repository name
/// of an `account/repository/...` key.
pub fn repo_of(path: &str) -> (r: String)
    requires
        slash_count(path@) >= 1,
    ensures
        r@ == repo_seg(path@),
{
    proof {
        lemma_first_index_props(path@, '/');
        lemma_slash_count_zero(path@);
    }
    let n = path.unicode_len();
    let f = first_index_in(path, '/');
    let tail = path.substring_char(f + 1, n);
    proof {
        lemma_first_index_props(tail@, '/');
    }
    let f2 = first_index_in(tail, '/');
    tail.substring_char(0, f2).to_owned()
}

/// Join an account name and a repository name into the full path key
/// `account/repository`.
pub fn format_repository_name(username: &str, repository_name: &str) -> (r: String)
    ensures
        r@ == username@ + seq!['/'] + repository_name@,
{
    let mut r = username.to_owned();
    r.append("/");
    r.append(repository_name);
    proof {
        reveal_strlit("/");
        assert("/"@ =~= seq!['/']);
        assert(r@ =~= username@ + seq!['/'] + repository_name@);
    }
    r
}

/// Split `s` at every occurrence of `sep`: the pieces between separators,
/// in order, with empty pieces kept.
pub open spec fn split_on(s: Seq<char>, sep: char) -> Seq<Seq<char>>
    decreases s.len(),
{
    let f = first_index_of(s, sep);
    if f >= s.len() {
        seq![s]
    } else {
        seq![s.subrange(0, f as int)] + split_on(s.subrange(f as int + 1, s.len() as int), sep)
    }
}

/// Split a provider listing into its newline-delimited pieces, empty
/// pieces kept (a trailing newline yields a final empty piece).
pub fn split_lines(s: &str) -> (r: Vec<String>)
    ensures
        r.deep_view() == split_on(s@, '\n'),
    decreases s@.len(),
{
    proof {
        lemma_first_index_props(s@, '\n');
    }
    let n = s.unicode_len();
    let f = first_index_in(s, '\n');
    if f >= n {
        let mut v: Vec<String> = Vec::new();
        v.push(s.to_owned());
        proof {
            assert(v.deep_view() =~= split_on(s@, '\n'));
        }
        v
    } else {
        let head = s.substring_char(0, f).to_owned();
        let tail = s.substring_char(f + 1, n);
        let mut rest = split_lines(tail);
        rest.insert(0, head);
        proof {
            assert(rest.deep_view() =~= split_on(s@, '\n'));
        }
        rest
    }
}

/// Index of the first occurrence of `sep` in `path`, or its character
/// length if none.
pub fn first_index_in(path: &str, sep: char) -> (r: usize)
    ensures
        r == first_index_of(path@, sep),
{
    let n = path.unicode_len();
    let mut i: usize = 0;
    while i < n
        invariant
            i <= n,
            n == path@.len(),
            forall|j: int| 0 <= j < i ==> path@[j] != sep,
        decreases n - i,
    {
        if path.get_char(i) == sep {
            proof {
                lemma_first_index_at(path@, sep, i as int);
            }
            return i;
        }
        i = i + 1;
    }
    proof {
        lemma_first_index_at(path@, sep, n as int);
    }
    n
}

/// Classify a full path by its segment count. Total: any string is
/// classifiable; `""` and `"/"` are the root.
pub fn classify(path: &str) -> (r: GithubVirtualFileSystemPath)
    ensures
        r == spec_classify(path@),
{
    let n = path.unicode_len();
    if n == 0 {
        return GithubVirtualFileSystemPath::Root;
    }
    if n == 1 && path.get_char(0) == '/' {
        return GithubVirtualFileSystemPath::Root;
    }
    let mut count: usize = 0;
    let mut i: usize = 0;
    while i < n
        invariant
            i <= n,
            n == path@.len(),
            count <= i,
            count == slash_count(path@.subrange(0, i as int)),
        decreases n - i,
    {
        if path.get_char(i) == '/' {
            count = count + 1;
        }
        proof {
            assert(path@.subrange(0, i + 1).drop_last() =~= path@.subrange(0, i as int));
        }
        i = i + 1;
    }
    proof {
        assert(path@.subrange(0, n as int) =~= path@);
    }
    if count == 0 {
        GithubVirtualFileSystemPath::Account
    } else if count == 1 {
        GithubVirtualFileSystemPath::Repository
    } else {
        GithubVirtualFileSystemPath::File
    }
}

/// A single slash counts as one slash.
pub proof fn lemma_slash_count_single()
    ensures
        slash_count(seq!['/']) == 1,
{
    assert(seq!['/'].drop_last() =~= Seq::<char>::empty());
    assert(slash_count(Seq::<char>::empty()) == 0);
}

/// A string without a slash is all one segment.
pub proof fn lemma_account_whole(s: Seq<char>)
    requires
        slash_count(s) == 0,
    ensures
        account_seg(s) == s,
{
    lemma_slash_count_zero(s);
    lemma_first_index_at(s, '/', s.len() as int);
    assert(account_seg(s) =~= s);
}

/// Joining two slash-free segments with `'/'` yields a key whose first
/// segment is the first, whose second segment is the second, and which
/// classifies as a repository when the first segment is nonempty.
pub proof fn lemma_join_segments(a: Seq<char>, b: Seq<char>)
    requires
        slash_count(a) == 0,
        slash_count(b) == 0,
    ensures
        account_seg(a + seq!['/'] + b) == a,
        repo_seg(a + seq!['/'] + b) == b,
        slash_count(a + seq!['/'] + b) == 1,
        a.len() > 0 ==> spec_classify(a + seq!['/'] + b)
            == GithubVirtualFileSystemPath::Repository,
{
    let p = a + seq!['/'] + b;
    lemma_slash_count_zero(a);
    lemma_slash_count_zero(b);
    assert forall|j: int| 0 <= j < a.len() implies p[j] != '/' by {
        assert(p[j] == a[j]);
    }
    assert(p[a.len() as int] == '/');
    lemma_first_index_at(p, '/', a.len() as int);
    assert(account_seg(p) =~= a);
    let t = tail_after_slash(p);
    assert(t =~= b);
    lemma_first_index_at(b, '/', b.len() as int);
    assert(account_seg(b) =~= b);
    lemma_slash_count_single();
    lemma_slash_count_add(a, seq!['/']);
    lemma_slash_count_add(a + seq!['/'], b);
    assert((a + seq!['/']) + b =~= p);
    if a.len() > 0 {
        assert(p.len() >= 2);
    }
}

/// A repository key decomposes as `account/repository` with slash-free
/// segments.
pub proof fn lemma_split_repository(p: Seq<char>)
    requires
        spec_classify(p) == GithubVirtualFileSystemPath::Repository,
    ensures
        p == account_seg(p) + seq!['/'] + repo_seg(p),
        slash_count(account_seg(p)) == 0,
        slash_count(repo_seg(p)) == 0,
        account_seg(p).len() == first_index_of(p, '/'),
{
    lemma_first_index_props(p, '/');
    lemma_slash_count_zero(p);
    let f = first_index_of(p, '/') as int;
    assert(f < p.len());
    let a = account_seg(p);
    let t = tail_after_slash(p);
    assert(forall|j: int| 0 <= j < a.len() ==> a[j] == p[j]);
    lemma_slash_count_zero(a);
    assert(p =~= a + seq!['/'] + t);
    lemma_slash_count_single();
    lemma_slash_count_add(a, seq!['/']);
    lemma_slash_count_add(a + seq!['/'], t);
    assert((a + seq!['/']) + t =~= p);
    assert(slash_count(t) == 0);
    lemma_account_whole(t);
    assert(p =~= a + seq!['/'] + repo_seg(p));
}

} // verus!
