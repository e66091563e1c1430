//! The identity registry: a bijection between full path keys and inode
//! identifiers, with a per-inode attribute record. Inodes are assigned
//! monotonically as `size + 1`; inode 1 is permanently the root; an
//! insert of an already-present path is a no-op that returns the
//! existing inode.

use vstd::prelude::*;

use crate::paths::str_eq;

verus! {

/// What a namespace entry is: a directory, a regular file, or a symbolic
/// link (the shape a materialized repository takes).
#[derive(Clone, Copy, Debug, PartialEq, Eq, Structural)]
pub enum EntityKind {
    Directory,
    RegularFile,
    Symlink,
}

/// The per-inode attribute record: entity kind, permission bits, a byte
/// size used informally (the length of a name, not real content size),
/// and one timestamp standing for all time fields.
#[derive(Clone, Copy, Debug, PartialEq, Eq, Structural)]
pub struct AttributeRecord {
    pub kind: EntityKind,
    pub perm: u16,
    pub size: u64,
    pub timestamp: u64,
}

/// One registry slot: a full path key and its attribute record. The slot
/// at index `i` owns inode `i + 1`.
pub struct RegistryEntry {
    pub path: String,
    pub attr: AttributeRecord,
}

/// The registry as specifications see it: the sequence of
/// (path, attribute record) pairs in inode order.
pub type RegistryView = Seq<(Seq<char>, AttributeRecord)>;

/// Whether some slot of `v` holds the path `p`.
pub open spec fn contains_path(v: RegistryView, p: Seq<char>) -> bool {
    exists|i: int| 0 <= i < v.len() && v[i].0 == p
}

/// The slot index holding `p` (unique when the paths of `v` are
/// distinct).
pub open spec fn index_of_path(v: RegistryView, p: Seq<char>) -> int {
    choose|i: int| 0 <= i < v.len() && v[i].0 == p
}

/// No two slots of `v` hold the same path.
pub open spec fn distinct_paths(v: RegistryView) -> bool {
    forall|i: int, j: int| 0 <= i < j < v.len() ==> v[i].0 != v[j].0
}

/// What inserting `p` with record `a` yields: the registry unchanged and
/// the existing inode if `p` is present, else the registry grown by one
/// slot and the fresh inode `len + 1`.
pub open spec fn spec_insert(v: RegistryView, p: Seq<char>, a: AttributeRecord) -> (
    RegistryView,
    u64,
) {
    if contains_path(v, p) {
        (v, (index_of_path(v, p) + 1) as u64)
    } else {
        (v.push((p, a)), (v.len() + 1) as u64)
    }
}

/// The identity registry.
pub struct Registry {
    entries: Vec<RegistryEntry>,
}

impl View for Registry {
    type V = RegistryView;

    closed spec fn view(&self) -> RegistryView {
        Seq::new(self.entries@.len(), |i: int| (self.entries@[i].path@, self.entries@[i].attr))
    }
}

impl Registry {
    /// Well-formed: at least the root slot, the root path `"/"` at inode
    /// 1, all paths distinct, and few enough slots that every inode fits
    /// in its integer type.
    pub open spec fn wf(self) -> bool {
        &&& self@.len() >= 1
        &&& self@[0].0 == seq!['/']
        &&& distinct_paths(self@)
        &&& self@.len() <= u64::MAX
    }

    pub open spec fn spec_len(self) -> nat {
        self@.len()
    }

    pub open spec fn spec_contains(self, p: Seq<char>) -> bool {
        contains_path(self@, p)
    }

    /// The inode of `p`, if `p` is known.
    pub open spec fn spec_resolve_inode(self, p: Seq<char>) -> Option<u64> {
        if contains_path(self@, p) {
            Some((index_of_path(self@, p) + 1) as u64)
        } else {
            None
        }
    }

    /// The path of inode `ino`, or the empty sentinel path if `ino` is
    /// unknown (callers treat the sentinel as root-equivalent).
    pub open spec fn spec_resolve_path(self, ino: u64) -> Seq<char> {
        if 1 <= ino <= self@.len() {
            self@[ino as int - 1].0
        } else {
            Seq::<char>::empty()
        }
    }

    /// The attribute record of inode `ino`, if `ino` is known.
    pub open spec fn spec_get_attributes(self, ino: u64) -> Option<AttributeRecord> {
        if 1 <= ino <= self@.len() {
            Some(self@[ino as int - 1].1)
        } else {
            None
        }
    }

    /// A fresh registry holding only the root entry at inode 1.
    pub fn new(root_attr: AttributeRecord) -> (r: Registry)
        ensures
            r.wf(),
            r@ =~= seq![(seq!['/'], root_attr)],
    {
        let mut entries: Vec<RegistryEntry> = Vec::new();
        let root = String::from_str("/");
        proof {
            reveal_strlit("/");
            assert(root@ =~= seq!['/']);
        }
        entries.push(RegistryEntry { path: root, attr: root_attr });
        let r = Registry { entries };
        proof {
            assert(r@ =~= seq![(seq!['/'], root_attr)]);
        }
        r
    }

    /// How many entries the registry holds.
    pub fn size(&self) -> (n: usize)
        ensures
            n == self.spec_len(),
    {
        self.entries.len()
    }

    /// Exact-match lookup of a full path.
    pub fn resolve_inode(&self, path: &str) -> (r: Option<u64>)
        requires
            self.wf(),
        ensures
            r == self.spec_resolve_inode(path@),
    {
        let n = self.entries.len();
        let mut i: usize = 0;
        while i < n
            invariant
                i <= n,
                n == self@.len(),
                self.wf(),
                forall|j: int| 0 <= j < i ==> self@[j].0 != path@,
            decreases n - i,
        {
            if str_eq(self.entries[i].path.as_str(), path) {
                proof {
                    lemma_index_of_path_unique(self@, path@, i as int);
                }
                return Some(i as u64 + 1);
            }
            i = i + 1;
        }
        None
    }

    /// The full path of an inode, or the empty sentinel path for an
    /// unknown inode (not an error: callers classify the sentinel as
    /// root-equivalent).
    pub fn resolve_path(&self, ino: u64) -> (r: String)
        ensures
            r@ == self.spec_resolve_path(ino),
    {
        if 1 <= ino && ino <= self.entries.len() as u64 {
            let idx = (ino - 1) as usize;
            self.entries[idx].path.clone()
        } else {
            String::new()
        }
    }

    /// Assign the next unique inode to `path` if it is absent; return the
    /// existing inode unchanged if it is present.
    pub fn insert(&mut self, path: &str, attr: AttributeRecord) -> (ino: u64)
        requires
            old(self).wf(),
            old(self)@.len() < u64::MAX,
        ensures
            final(self).wf(),
            final(self)@ == spec_insert(old(self)@, path@, attr).0,
            ino == spec_insert(old(self)@, path@, attr).1,
    {
        let n = self.entries.len();
        let mut i: usize = 0;
        while i < n
            invariant
                i <= n,
                n == self@.len(),
                self.wf(),
                self@ == old(self)@,
                forall|j: int| 0 <= j < i ==> self@[j].0 != path@,
            decreases n - i,
        {
            if str_eq(self.entries[i].path.as_str(), path) {
                proof {
                    lemma_index_of_path_unique(self@, path@, i as int);
                }
                return i as u64 + 1;
            }
            i = i + 1;
        }
        self.entries.push(RegistryEntry { path: path.to_owned(), attr });
        proof {
            assert(self@ =~= old(self)@.push((path@, attr)));
        }
        n as u64 + 1
    }

    /// The path stored in slot `i` (owning inode `i + 1`).
    pub fn path_at(&self, i: usize) -> (r: &String)
        requires
            i < self@.len(),
        ensures
            r@ == self@[i as int].0,
    {
        &self.entries[i].path
    }

    /// The attribute record stored in slot `i` (owning inode `i + 1`).
    pub fn attr_at(&self, i: usize) -> (r: AttributeRecord)
        requires
            i < self@.len(),
        ensures
            r == self@[i as int].1,
    {
        self.entries[i].attr
    }

    /// The attribute record of an inode, if it is known.
    pub fn get_attributes(&self, ino: u64) -> (r: Option<AttributeRecord>)
        ensures
            r == self.spec_get_attributes(ino),
    {
        if 1 <= ino && ino <= self.entries.len() as u64 {
            let idx = (ino - 1) as usize;
            Some(self.entries[idx].attr)
        } else {
            None
        }
    }

    /// Flip the entity kind of a known inode's record, leaving its path
    /// and its other fields as they are. Only the materialization step
    /// mutates a record after creation.
    pub fn set_kind(&mut self, ino: u64, kind: EntityKind)
        requires
            old(self).wf(),
            1 <= ino <= old(self)@.len(),
        ensures
            final(self).wf(),
            final(self)@.len() == old(self)@.len(),
            final(self)@[ino as int - 1].0 == old(self)@[ino as int - 1].0,
            final(self)@[ino as int - 1].1 == (AttributeRecord {
                kind,
                ..old(self)@[ino as int - 1].1
            }),
            forall|i: int|
                0 <= i < old(self)@.len() && i != ino as int - 1 ==> final(self)@[i] == old(
                    self,
                )@[i],
    {
        let n = self.entries.len();
        let idx = (ino - 1) as usize;
        assert(idx < n);
        self.entries[idx].attr.kind = kind;
        proof {
            assert(self@[ino as int - 1].0 == old(self)@[ino as int - 1].0);
            assert(self@[ino as int - 1].1 == (AttributeRecord {
                kind,
                ..old(self)@[ino as int - 1].1
            }));
            assert forall|i: int|
                0 <= i < old(self)@.len() && i != ino as int - 1 implies self@[i] == old(
                self,
            )@[i] by {
                assert(self.entries@[i] == old(self).entries@[i]);
            }
        }
    }
}

/// When the paths of `v` are distinct and slot `i` holds `p`, slot `i` is
/// the one `index_of_path` picks.
pub proof fn lemma_index_of_path_unique(v: RegistryView, p: Seq<char>, i: int)
    requires
        distinct_paths(v),
        0 <= i < v.len(),
        v[i].0 == p,
    ensures
        contains_path(v, p),
        index_of_path(v, p) == i,
{
    assert(contains_path(v, p));
    let k = index_of_path(v, p);
    assert(0 <= k < v.len() && v[k].0 == p);
    if k != i {
        if k < i {
            assert(v[k].0 != v[i].0);
        } else {
            assert(v[i].0 != v[k].0);
        }
        assert(false);
    }
}

/// Bijection invariant: resolving a known inode to its path and that
/// path back to an inode returns the same inode; resolving a known path
/// to its inode and that inode back to a path returns the same path.
pub proof fn lemma_registry_bijection(r: Registry, ino: u64, p: Seq<char>)
    requires
        r.wf(),
    ensures
        1 <= ino <= r@.len() ==> r.spec_resolve_inode(r.spec_resolve_path(ino)) == Some(ino),
        r.spec_contains(p) ==> (r.spec_resolve_inode(p) matches Some(i)
            && r.spec_resolve_path(i) == p),
{
    if 1 <= ino <= r@.len() {
        let q = r.spec_resolve_path(ino);
        lemma_index_of_path_unique(r@, q, ino as int - 1);
    }
    if r.spec_contains(p) {
        let k = index_of_path(r@, p);
        assert(0 <= k < r@.len() && r@[k].0 == p);
    }
}

/// What an insert does to the set of known paths: the inserted path is
/// known afterwards, exactly the previously known paths stay known,
/// every existing slot is untouched, and distinctness is preserved.
pub proof fn lemma_spec_insert_effect(v: RegistryView, p: Seq<char>, a: AttributeRecord)
    requires
        distinct_paths(v),
    ensures
        ({
            let v2 = spec_insert(v, p, a).0;
            &&& distinct_paths(v2)
            &&& v.len() <= v2.len() <= v.len() + 1
            &&& forall|i: int| 0 <= i < v.len() ==> v2[i] == v[i]
            &&& contains_path(v2, p)
            &&& forall|q: Seq<char>|
                #[trigger] contains_path(v2, q) <==> contains_path(v, q) || q == p
        }),
{
    let v2 = spec_insert(v, p, a).0;
    if contains_path(v, p) {
        assert(v2 == v);
    } else {
        assert(v2 == v.push((p, a)));
        assert(v2[v.len() as int].0 == p);
        assert(contains_path(v2, p));
        assert forall|i: int, j: int| 0 <= i < j < v2.len() implies v2[i].0 != v2[j].0 by {
            if j == v.len() {
                if v2[i].0 == p {
                    assert(v[i].0 == p);
                    assert(contains_path(v, p));
                }
            }
        }
        assert forall|q: Seq<char>| #[trigger]
            contains_path(v2, q) <==> contains_path(v, q) || q == p by {
            if contains_path(v2, q) {
                let i = choose|i: int| 0 <= i < v2.len() && v2[i].0 == q;
                if i < v.len() {
                    assert(v[i].0 == q);
                } else {
                    assert(q == p);
                }
            }
            if contains_path(v, q) {
                let i = choose|i: int| 0 <= i < v.len() && v[i].0 == q;
                assert(v2[i].0 == q);
            }
        }
    }
}

/// Idempotent insert: inserting the same full path twice never changes
/// its assigned inode and never grows the registry on the second call,
/// whatever record the second call carries.
pub proof fn lemma_insert_idempotent(
    v: RegistryView,
    p: Seq<char>,
    a1: AttributeRecord,
    a2: AttributeRecord,
)
    requires
        distinct_paths(v),
        v.len() < u64::MAX,
    ensures
        ({
            let (v1, i1) = spec_insert(v, p, a1);
            let (v2, i2) = spec_insert(v1, p, a2);
            &&& v2 == v1
            &&& i2 == i1
            &&& v2.len() == v1.len()
        }),
{
    let (v1, i1) = spec_insert(v, p, a1);
    if contains_path(v, p) {
        assert(v1 == v);
    } else {
        assert(v1 == v.push((p, a1)));
        lemma_index_of_path_unique(v1, p, v.len() as int);
        assert(spec_insert(v1, p, a2).1 == (v.len() + 1) as u64);
    }
}

} // verus!
