//! The committed state of a shard and the staged layer over it.
//!
//! A `StateDb` holds the key/value set that was last committed, with its
//! root. A `StateDbUpdate` collects writes over it in two layers: what the
//! input being applied has written so far, and what earlier inputs have
//! committed. Rolling back drops the first layer, committing folds it into
//! the second, and finalizing turns the second into a batch of changes
//! and the root of the state that they lead to.
use crate::bytes::{copy_bytes, copy_opt_bytes, opt_bytes, same_bytes};
use crate::codec::{enc_bytes, enc_opt_bytes, write_bytes, write_opt_bytes};
use crate::hash::{hash, spec_hash, HASH_LEN};
use crate::sorted::{
    canonical, lemma_canonical, lemma_insert_entry, lemma_map_of_at, map_of, sorted, EntryView,
    KeyValueList,
};
use crate::types::MerkleHash;
use vstd::prelude::*;

verus! {

/// A key/value set.
pub type StateMap = Map<Seq<u8>, Seq<u8>>;

/// Writes by key: `Some` for a value set, `None` for a key removed.
pub type Changes = Map<Seq<u8>, Option<Seq<u8>>>;

/// The state `base` with the writes `changes` applied.
pub open spec fn overlay(base: StateMap, changes: Changes) -> StateMap {
    Map::new(
        |k: Seq<u8>|
            if changes.contains_key(k) {
                changes[k] is Some
            } else {
                base.contains_key(k)
            },
        |k: Seq<u8>|
            if changes.contains_key(k) {
                changes[k].unwrap()
            } else {
                base[k]
            },
    )
}

/// What is stored under `key`, if anything.
pub open spec fn stored(state: StateMap, key: Seq<u8>) -> Option<Seq<u8>> {
    if state.contains_key(key) {
        Some(state[key])
    } else {
        None
    }
}

/// The writes that lead from `base` to `state`, and no others: each key
/// under which the two differ, with what `state` holds under it.
pub open spec fn spec_diff(base: StateMap, state: StateMap) -> Changes {
    Map::new(|k: Seq<u8>| stored(base, k) != stored(state, k), |k: Seq<u8>| stored(state, k))
}

/// The writes from `base` to `state` lead from `base` to `state`.
pub proof fn lemma_diff_leads(base: StateMap, state: StateMap)
    ensures
        overlay(base, spec_diff(base, state)) == state,
{
    assert(overlay(base, spec_diff(base, state)) =~= state);
}

/// A state as writes over the empty state.
pub open spec fn as_changes(m: StateMap) -> Changes {
    Map::new(|k: Seq<u8>| m.contains_key(k), |k: Seq<u8>| Some(m[k]))
}

/// The state that a list of present values stands for.
pub open spec fn present(c: Changes) -> StateMap {
    Map::new(|k: Seq<u8>| c.contains_key(k), |k: Seq<u8>| c[k].unwrap())
}

/// The bytes over which the root of a sorted list of entries is taken.
pub open spec fn enc_entries(s: Seq<EntryView>) -> Seq<u8>
    decreases s.len(),
{
    if s.len() == 0 {
        Seq::empty()
    } else {
        enc_bytes(s[0].0) + enc_opt_bytes(s[0].1) + enc_entries(s.skip(1))
    }
}

proof fn lemma_enc_entries_push(s: Seq<EntryView>, e: EntryView)
    ensures
        enc_entries(s.push(e)) == enc_entries(s) + (enc_bytes(e.0) + enc_opt_bytes(e.1)),
    decreases s.len(),
{
    if s.len() == 0 {
        let t = s.push(e).skip(1);
        assert(t =~= Seq::empty());
        assert(enc_entries(t) =~= Seq::empty());
        assert(s.push(e)[0] == e);
        assert(enc_entries(s.push(e)) =~= enc_bytes(e.0) + enc_opt_bytes(e.1));
        assert(enc_entries(s) + (enc_bytes(e.0) + enc_opt_bytes(e.1)) =~= enc_bytes(e.0)
            + enc_opt_bytes(e.1));
    } else {
        lemma_enc_entries_push(s.skip(1), e);
        assert(s.push(e).skip(1) =~= s.skip(1).push(e));
        assert(enc_entries(s.push(e)) =~= enc_entries(s) + (enc_bytes(e.0) + enc_opt_bytes(e.1)));
    }
}

/// The root of the empty state: 32 zero bytes.
pub open spec fn spec_empty_root() -> Seq<u8> {
    Seq::new(HASH_LEN as nat, |i: int| 0u8)
}

/// The root of a sorted list of entries.
pub open spec fn spec_entries_root(s: Seq<EntryView>) -> Seq<u8> {
    if s.len() == 0 {
        spec_empty_root()
    } else {
        spec_hash(enc_entries(s))
    }
}

/// The root of a state: the digest of its entries in the order of their
/// keys, and 32 zero bytes for the empty state.
pub open spec fn spec_state_root(m: StateMap) -> Seq<u8> {
    spec_entries_root(canonical(as_changes(m)))
}

/// The root of the empty state.
pub fn empty_root() -> (r: MerkleHash)
    ensures
        r@ == spec_empty_root(),
{
    let mut r: Vec<u8> = Vec::new();
    let mut i: usize = 0;
    while i < HASH_LEN
        invariant
            i <= HASH_LEN,
            r@.len() == i,
            forall|k: int| 0 <= k < i ==> r@[k] == 0u8,
        decreases HASH_LEN - i,
    {
        r.push(0u8);
        i += 1;
    }
    assert(r@ =~= spec_empty_root());
    r
}

fn entries_root(list: &KeyValueList) -> (r: MerkleHash)
    ensures
        r@ == spec_entries_root(list@),
{
    if list.len() == 0 {
        return empty_root();
    }
    let mut buf: Vec<u8> = Vec::new();
    let mut i: usize = 0;
    assert(list@.take(0) =~= Seq::empty());
    while i < list.len()
        invariant
            i <= list@.len(),
            buf@ == enc_entries(list@.take(i as int)),
        decreases list@.len() - i,
    {
        let e = list.entry(i);
        let ghost before = buf@;
        write_bytes(&mut buf, e.key.as_slice());
        write_opt_bytes(&mut buf, &e.value);
        proof {
            let ev = list@[i as int];
            assert(ev == e@);
            lemma_enc_entries_push(list@.take(i as int), ev);
            assert(list@.take(i + 1) =~= list@.take(i as int).push(ev));
            assert(buf@ =~= before + (enc_bytes(ev.0) + enc_opt_bytes(ev.1)));
        }
        i += 1;
    }
    assert(list@.take(list@.len() as int) =~= list@);
    hash(buf.as_slice())
}

// ---------------------------------------------------------------------------
// The committed state
// ---------------------------------------------------------------------------
/// The committed key/value set of a shard, with its root.
#[derive(Clone, Debug, PartialEq, Eq)]
pub struct StateDb {
    list: KeyValueList,
    root: MerkleHash,
}

/// Changes that were made over another root than that of the database
/// that was to take them.
#[derive(Clone, Copy, Debug, PartialEq, Eq, Structural)]
pub struct StaleChanges {}

/// Changes to commit: the writes, and the root of the state that they were
/// made over.
#[derive(Clone, Debug, PartialEq, Eq)]
pub struct DBChanges {
    base_root: MerkleHash,
    list: KeyValueList,
}

impl DBChanges {
    /// The writes are in the order of their keys.
    pub closed spec fn wf(&self) -> bool {
        self.list.wf()
    }

    /// The root of the state that the changes were made over.
    pub closed spec fn base_root(&self) -> Seq<u8> {
        self.base_root@
    }

    /// The writes, by key.
    pub closed spec fn changes(&self) -> Changes {
        self.list.map()
    }

    /// How many keys the changes write.
    pub fn len(&self) -> (n: usize)
        requires
            self.wf(),
        ensures
            n == self.changes().dom().len(),
    {
        proof {
            self.list.lemma_len();
        }
        self.list.len()
    }
}

impl View for StateDb {
    type V = StateMap;

    closed spec fn view(&self) -> StateMap {
        present(self.list.map())
    }
}

impl StateDb {
    /// The entries are sorted, all present, and the root is theirs.
    pub closed spec fn wf(&self) -> bool {
        &&& self.list.wf()
        &&& forall|i: int| 0 <= i < self.list@.len() ==> (#[trigger] self.list@[i]).1 is Some
        &&& self.root@ == spec_entries_root(self.list@)
    }

    /// The root that the database holds.
    pub closed spec fn spec_root(&self) -> Seq<u8> {
        self.root@
    }

    /// The root is the root of the key/value set.
    pub proof fn lemma_root(&self)
        requires
            self.wf(),
        ensures
            self.spec_root() == spec_state_root(self@),
    {
        self.lemma_present();
        lemma_canonical(self.list@);
    }

    proof fn lemma_present(&self)
        requires
            self.wf(),
        ensures
            as_changes(self@) == self.list.map(),
    {
        assert forall|k: Seq<u8>| self.list.map().contains_key(k) implies (
        #[trigger] self.list.map()[k]) is Some by {
            let i = crate::sorted::index_of(self.list@, k);
            lemma_map_of_at(self.list@, i);
        }
        assert(as_changes(self@) =~= self.list.map());
    }

    /// An empty database.
    pub fn new() -> (r: Self)
        ensures
            r.wf(),
            r@ == StateMap::empty(),
            r.spec_root() == spec_empty_root(),
    {
        let r = StateDb { list: KeyValueList::new(), root: empty_root() };
        assert(r@ =~= StateMap::empty());
        r
    }

    /// The root of the committed state.
    pub fn root(&self) -> (r: MerkleHash)
        requires
            self.wf(),
        ensures
            r@ == self.spec_root(),
            r@ == spec_state_root(self@),
    {
        proof {
            self.lemma_root();
        }
        self.root.clone()
    }

    /// The value committed under `key`.
    pub fn get(&self, key: &[u8]) -> (r: Option<Vec<u8>>)
        requires
            self.wf(),
        ensures
            r is Some == self@.contains_key(key@),
            r is Some ==> r.unwrap()@ == self@[key@],
    {
        match self.list.get(key) {
            Some(Some(v)) => Some(v.clone()),
            _ => {
                proof {
                    self.lemma_present();
                    if self.list.map().contains_key(key@) {
                        assert(as_changes(self@)[key@] is Some);
                    }
                }
                None
            },
        }
    }

    /// How many keys the database holds.
    pub fn len(&self) -> (n: usize)
        requires
            self.wf(),
        ensures
            n == self@.dom().len(),
    {
        proof {
            self.list.lemma_len();
            assert(self@.dom() =~= self.list.map().dom());
        }
        self.list.len()
    }

    /// Commits `changes`, if they were made over the state that the
    /// database holds. Changes made over another root are refused, and
    /// the database stays as it is.
    pub fn commit(&mut self, changes: DBChanges) -> (r: Result<(), StaleChanges>)
        requires
            old(self).wf(),
            changes.wf(),
        ensures
            final(self).wf(),
            r is Ok == (changes.base_root() == old(self).spec_root()),
            r is Ok ==> final(self)@ == overlay(old(self)@, changes.changes()),
            r is Err ==> *final(self) == *old(self),
            final(self).spec_root() == spec_state_root(final(self)@),
    {
        proof {
            self.lemma_root();
        }
        if !same_bytes(changes.base_root.as_slice(), self.root.as_slice()) {
            return Err(StaleChanges {  });
        }
        let ghost base = self@;
        apply_changes(&mut self.list, &changes.list);
        self.root = entries_root(&self.list);
        proof {
            self.lemma_root();
        }
        Ok(())
    }
}

/// Those of the first `n` writes that change what `base` holds.
pub open spec fn spec_kept(base: StateMap, writes: Seq<EntryView>, n: int) -> Changes {
    Map::new(
        |k: Seq<u8>| map_of(writes.take(n)).contains_key(k) && stored(base, k) != map_of(writes)[k],
        |k: Seq<u8>| map_of(writes)[k],
    )
}

fn same_opt_bytes(a: &Option<Vec<u8>>, b: &Option<Vec<u8>>) -> (r: bool)
    ensures
        r == (opt_bytes(*a) == opt_bytes(*b)),
{
    match (a, b) {
        (Some(x), Some(y)) => same_bytes(x.as_slice(), y.as_slice()),
        (None, None) => true,
        _ => false,
    }
}

/// Applies the first `n` entries of a sorted list of changes to a state.
pub open spec fn applied(base: StateMap, changes: Seq<EntryView>, n: int) -> StateMap {
    overlay(base, map_of(changes.take(n)))
}

proof fn lemma_take_next(changes: Seq<EntryView>, n: int)
    requires
        sorted(changes),
        0 <= n < changes.len(),
    ensures
        sorted(changes.take(n)),
        map_of(changes.take(n + 1)) == map_of(changes.take(n)).insert(
            changes[n].0,
            changes[n].1,
        ),
{
    let t = changes.take(n);
    assert forall|i: int, j: int| 0 <= i < j < t.len() implies crate::bytes::lex_less(
        #[trigger] t[i].0,
        #[trigger] t[j].0,
    ) by {
        assert(t[i] == changes[i] && t[j] == changes[j]);
    }
    assert forall|i: int| 0 <= i < n implies crate::bytes::lex_less(
        #[trigger] t[i].0,
        changes[n].0,
    ) by {
        assert(t[i] == changes[i]);
    }
    lemma_insert_entry(t, n, changes[n]);
    assert(t.insert(n, changes[n]) =~= changes.take(n + 1));
}

/// Folds sorted changes into a list of present values.
fn apply_changes(list: &mut KeyValueList, changes: &KeyValueList)
    requires
        old(list).wf(),
        changes.wf(),
        forall|i: int| 0 <= i < old(list)@.len() ==> (#[trigger] old(list)@[i]).1 is Some,
    ensures
        final(list).wf(),
        forall|i: int| 0 <= i < final(list)@.len() ==> (#[trigger] final(list)@[i]).1 is Some,
        present(final(list).map()) == overlay(present(old(list).map()), changes.map()),
{
    let ghost base = present(list.map());
    let mut i: usize = 0;
    proof {
        assert(changes@.take(0) =~= Seq::empty());
        assert(map_of(changes@.take(0)) =~= Changes::empty());
        assert(present(list.map()) =~= applied(base, changes@, 0));
        lemma_all_present(list);
    }
    while i < changes.len()
        invariant
            i <= changes@.len(),
            list.wf(),
            changes.wf(),
            forall|k: Seq<u8>| list.map().contains_key(k) ==> (#[trigger] list.map()[k]) is Some,
            present(list.map()) == applied(base, changes@, i as int),
        decreases changes@.len() - i,
    {
        let e = changes.entry(i);
        let ghost before = list.map();
        proof {
            assert(changes@[i as int] == e@);
            lemma_take_next(changes@, i as int);
        }
        match &e.value {
            Some(v) => {
                list.put(copy_bytes(e.key.as_slice()), Some(v.clone()));
            },
            None => {
                list.delete(e.key.as_slice());
            },
        }
        proof {
            let ev = changes@[i as int];
            let m0 = map_of(changes@.take(i as int));
            let m1 = map_of(changes@.take(i + 1));
            assert(m1 == m0.insert(ev.0, ev.1));
            assert(list.map() == if ev.1 is Some {
                before.insert(ev.0, ev.1)
            } else {
                before.remove(ev.0)
            });
            assert forall|k: Seq<u8>| #[trigger]
                present(list.map()).contains_key(k) == overlay(base, m1).contains_key(k) by {
                assert(present(before).contains_key(k) == overlay(base, m0).contains_key(k));
            }
            assert forall|k: Seq<u8>| #[trigger]
                present(list.map()).contains_key(k) implies present(list.map())[k] == overlay(
                base,
                m1,
            )[k] by {
                if k != ev.0 {
                    assert(present(before).contains_key(k));
                    assert(present(before)[k] == overlay(base, m0)[k]);
                }
            }
            assert(present(list.map()) =~= applied(base, changes@, i + 1));
        }
        i += 1;
    }
    proof {
        assert(changes@.take(changes@.len() as int) =~= changes@);
        assert forall|k: int| 0 <= k < list@.len() implies (#[trigger] list@[k]).1 is Some by {
            lemma_map_of_at(list@, k);
        }
    }
}

proof fn lemma_all_present(list: &KeyValueList)
    requires
        list.wf(),
        forall|i: int| 0 <= i < list@.len() ==> (#[trigger] list@[i]).1 is Some,
    ensures
        forall|k: Seq<u8>| list.map().contains_key(k) ==> (#[trigger] list.map()[k]) is Some,
{
    assert forall|k: Seq<u8>| list.map().contains_key(k) implies (#[trigger] list.map()[k]) is Some by {
        let i = crate::sorted::index_of(list@, k);
        lemma_map_of_at(list@, i);
    }
}

// ---------------------------------------------------------------------------
// The staged layer
// ---------------------------------------------------------------------------
/// Staged writes over a committed state.
#[derive(Debug)]
pub struct StateDbUpdate<'a> {
    db: &'a StateDb,
    root: MerkleHash,
    attached: bool,
    committed: KeyValueList,
    prospective: KeyValueList,
}

impl<'a> View for StateDbUpdate<'a> {
    type V = StateMap;

    /// The state that reads see.
    closed spec fn view(&self) -> StateMap {
        overlay(self.committed(), self.prospective.map())
    }
}

impl<'a> StateDbUpdate<'a> {
    /// The layers are in order and the layer stands on its database.
    pub closed spec fn wf(&self) -> bool {
        &&& self.db.wf()
        &&& self.committed.wf()
        &&& self.prospective.wf()
        &&& self.attached == (self.root@ == self.db.spec_root())
    }

    /// The database under the layer.
    pub closed spec fn db(&self) -> &'a StateDb {
        self.db
    }

    /// The root that the layer was opened on.
    pub closed spec fn opened_root(&self) -> Seq<u8> {
        self.root@
    }

    /// The state that the layer was opened on: the database's, if the root
    /// is the database's, and the empty state otherwise.
    pub closed spec fn base(&self) -> StateMap {
        if self.attached {
            self.db@
        } else {
            StateMap::empty()
        }
    }

    /// The writes committed so far.
    pub closed spec fn committed_changes(&self) -> Changes {
        self.committed.map()
    }

    /// The state that a rollback leads back to.
    pub closed spec fn committed(&self) -> StateMap {
        overlay(self.base(), self.committed.map())
    }

    /// Opens a layer over the state with the root `root`.
    pub fn new(db: &'a StateDb, root: &[u8]) -> (r: Self)
        requires
            db.wf(),
        ensures
            r.wf(),
            r.db() == db,
            r.opened_root() == root@,
            r.base() == if root@ == db.spec_root() {
                db@
            } else {
                StateMap::empty()
            },
            r.committed_changes() == Changes::empty(),
            r.committed() == r.base(),
            r@ == r.base(),
    {
        let attached = same_bytes(root, db.root.as_slice());
        let r = StateDbUpdate {
            db,
            root: copy_bytes(root),
            attached,
            committed: KeyValueList::new(),
            prospective: KeyValueList::new(),
        };
        assert(r.committed() =~= r.base());
        assert(r@ =~= r.base());
        r
    }

    /// The value under `key`, as the layer sees it.
    pub fn get(&self, key: &[u8]) -> (r: Option<Vec<u8>>)
        requires
            self.wf(),
        ensures
            r is Some == self@.contains_key(key@),
            r is Some ==> r.unwrap()@ == self@[key@],
    {
        match self.prospective.get(key) {
            Some(v) => copy_opt_bytes(v),
            None => match self.committed.get(key) {
                Some(v) => copy_opt_bytes(v),
                None => if self.attached {
                    self.db.get(key)
                } else {
                    None
                },
            },
        }
    }

    /// Writes `value` under `key`.
    pub fn set(&mut self, key: &[u8], value: &[u8])
        requires
            old(self).wf(),
        ensures
            final(self).wf(),
            final(self)@ == old(self)@.insert(key@, value@),
            final(self).committed() == old(self).committed(),
            final(self).committed_changes() == old(self).committed_changes(),
            final(self).base() == old(self).base(),
            final(self).db() == old(self).db(),
            final(self).opened_root() == old(self).opened_root(),
    {
        self.prospective.put(copy_bytes(key), Some(copy_bytes(value)));
        assert(self@ =~= old(self)@.insert(key@, value@));
    }

    /// Removes `key`.
    pub fn remove(&mut self, key: &[u8])
        requires
            old(self).wf(),
        ensures
            final(self).wf(),
            final(self)@ == old(self)@.remove(key@),
            final(self).committed() == old(self).committed(),
            final(self).committed_changes() == old(self).committed_changes(),
            final(self).base() == old(self).base(),
            final(self).db() == old(self).db(),
            final(self).opened_root() == old(self).opened_root(),
    {
        self.prospective.put(copy_bytes(key), None);
        assert(self@ =~= old(self)@.remove(key@));
    }

    /// Drops what was written since the last commit.
    pub fn rollback(&mut self)
        requires
            old(self).wf(),
        ensures
            final(self).wf(),
            final(self)@ == old(self).committed(),
            final(self).committed() == old(self).committed(),
            final(self).committed_changes() == old(self).committed_changes(),
            final(self).base() == old(self).base(),
            final(self).db() == old(self).db(),
            final(self).opened_root() == old(self).opened_root(),
    {
        self.prospective.clear();
        assert(self@ =~= old(self).committed());
    }

    /// Makes what was written since the last commit part of the committed layer.
    pub fn commit(&mut self)
        requires
            old(self).wf(),
        ensures
            final(self).wf(),
            final(self)@ == old(self)@,
            final(self).committed() == old(self)@,
            final(self).base() == old(self).base(),
            final(self).db() == old(self).db(),
            final(self).opened_root() == old(self).opened_root(),
    {
        let ghost c0 = self.committed.map();
        let ghost base = self.base();
        let mut i: usize = 0;
        proof {
            assert(self.prospective@.take(0) =~= Seq::empty());
            assert(map_of(self.prospective@.take(0)) =~= Changes::empty());
            assert(self.committed.map() =~= c0.union_prefer_right(
                map_of(self.prospective@.take(0)),
            ));
        }
        while i < self.prospective.len()
            invariant
                i <= self.prospective@.len(),
                self.wf(),
                self.prospective == old(self).prospective,
                self.db == old(self).db,
                self.root == old(self).root,
                self.attached == old(self).attached,
                self.committed.map() == c0.union_prefer_right(
                    map_of(self.prospective@.take(i as int)),
                ),
            decreases self.prospective@.len() - i,
        {
            let e = self.prospective.entry(i);
            proof {
                assert(self.prospective@[i as int] == e@);
                lemma_take_next(self.prospective@, i as int);
            }
            let key = copy_bytes(e.key.as_slice());
            let value = copy_opt_bytes(&e.value);
            self.committed.put(key, value);
            proof {
                assert(self.committed.map() =~= c0.union_prefer_right(
                    map_of(self.prospective@.take(i + 1)),
                ));
            }
            i += 1;
        }
        proof {
            assert(self.prospective@.take(self.prospective@.len() as int) =~= self.prospective@);
            assert(overlay(base, self.committed.map()) =~= old(self)@);
        }
        self.prospective.clear();
        assert(self@ =~= old(self)@);
    }

    /// What the base holds under `key`.
    fn base_value(&self, key: &[u8]) -> (r: Option<Vec<u8>>)
        requires
            self.wf(),
        ensures
            opt_bytes(r) == stored(self.base(), key@),
    {
        if self.attached {
            self.db.get(key)
        } else {
            None
        }
    }

    /// Commits what is staged and hands out the writes that lead from the
    /// state that the layer was opened on to the state that it has come
    /// to, with the root of that state.
    pub fn finalize(self) -> (r: (DBChanges, MerkleHash))
        requires
            self.wf(),
        ensures
            r.0.wf(),
            r.0.base_root() == self.opened_root(),
            r.0.changes() == spec_diff(self.base(), self@),
            r.1@ == spec_state_root(self@),
    {
        let ghost base = self.base();
        let ghost target = self@;
        let mut staged = self;
        staged.commit();
        let ghost written = staged.committed@;
        let mut changes = KeyValueList::new();
        let mut i: usize = 0;
        proof {
            assert(written.take(0) =~= Seq::empty());
            assert(map_of(written.take(0)) =~= Changes::empty());
            assert(changes.map() =~= spec_kept(base, written, 0));
        }
        while i < staged.committed.len()
            invariant
                i <= staged.committed@.len(),
                staged.wf(),
                staged.base() == base,
                staged.committed@ == written,
                changes.wf(),
                changes.map() == spec_kept(base, written, i as int),
            decreases staged.committed@.len() - i,
        {
            let e = staged.committed.entry(i);
            let before = staged.base_value(e.key.as_slice());
            proof {
                assert(written[i as int] == e@);
                lemma_take_next(written, i as int);
                lemma_map_of_at(written, i as int);
            }
            let ghost kept = changes.map();
            if !same_opt_bytes(&before, &e.value) {
                changes.put(copy_bytes(e.key.as_slice()), copy_opt_bytes(&e.value));
            }
            proof {
                assert(changes.map() =~= spec_kept(base, written, i + 1));
            }
            i += 1;
        }
        proof {
            assert(written.take(written.len() as int) =~= written);
            assert(changes.map() =~= spec_diff(base, target));
            lemma_diff_leads(base, target);
        }
        let mut list = if staged.attached {
            staged.db.list.duplicate()
        } else {
            KeyValueList::new()
        };
        proof {
            assert(present(list.map()) =~= base);
        }
        apply_changes(&mut list, &changes);
        let root = entries_root(&list);
        proof {
            let db = StateDb { list, root };
            assert(db.wf());
            db.lemma_root();
        }
        (DBChanges { base_root: staged.root, list: changes }, root)
    }
}

/// What a function leaves untouched in the staged layer when it only writes.
pub open spec fn only_staged(before: &StateDbUpdate, after: &StateDbUpdate) -> bool {
    &&& after.wf()
    &&& after.committed() == before.committed()
    &&& after.committed_changes() == before.committed_changes()
    &&& after.base() == before.base()
    &&& after.db() == before.db()
    &&& after.opened_root() == before.opened_root()
}

/// The staged layer still stands over the same database and root.
pub open spec fn same_base(before: &StateDbUpdate, after: &StateDbUpdate) -> bool {
    &&& after.wf()
    &&& after.base() == before.base()
    &&& after.db() == before.db()
    &&& after.opened_root() == before.opened_root()
}

} // verus!
