//! Key/value lists kept in the lexicographic order of their keys.
use crate::bytes::{
    copy_bytes, copy_opt_bytes, lemma_lex_irreflexive, lemma_lex_transitive, lex_less, opt_bytes,
    rank, Rank,
};
use vstd::prelude::*;

verus! {

/// A key with the value written under it, or with `None` where the key was removed.
pub type EntryView = (Seq<u8>, Option<Seq<u8>>);

/// The keys strictly increase along the list.
pub open spec fn sorted(s: Seq<EntryView>) -> bool {
    forall|i: int, j: int| 0 <= i < j < s.len() ==> lex_less(#[trigger] s[i].0, #[trigger] s[j].0)
}

/// The list has an entry under `key`.
pub open spec fn has_key(s: Seq<EntryView>, key: Seq<u8>) -> bool {
    exists|i: int| 0 <= i < s.len() && #[trigger] s[i].0 == key
}

/// Where the entry under `key` stands.
pub open spec fn index_of(s: Seq<EntryView>, key: Seq<u8>) -> int {
    choose|i: int| 0 <= i < s.len() && #[trigger] s[i].0 == key
}

/// The map that the list stands for.
pub open spec fn map_of(s: Seq<EntryView>) -> Map<Seq<u8>, Option<Seq<u8>>> {
    Map::new(|k: Seq<u8>| has_key(s, k), |k: Seq<u8>| s[index_of(s, k)].1)
}

/// In a sorted list each key stands at one place only.
pub proof fn lemma_sorted_distinct(s: Seq<EntryView>, i: int, j: int)
    requires
        sorted(s),
        0 <= i < s.len(),
        0 <= j < s.len(),
        s[i].0 == s[j].0,
    ensures
        i == j,
{
    lemma_lex_irreflexive(s[i].0);
}

/// The entry at `i` of a sorted list is what the map holds under its key.
pub proof fn lemma_map_of_at(s: Seq<EntryView>, i: int)
    requires
        sorted(s),
        0 <= i < s.len(),
    ensures
        map_of(s).contains_key(s[i].0),
        map_of(s)[s[i].0] == s[i].1,
{
    assert(has_key(s, s[i].0));
    lemma_sorted_distinct(s, i, index_of(s, s[i].0));
}

/// Putting a new key at its place keeps the order and inserts into the map.
pub proof fn lemma_insert_entry(s: Seq<EntryView>, p: int, e: EntryView)
    requires
        sorted(s),
        0 <= p <= s.len(),
        forall|i: int| 0 <= i < p ==> lex_less(#[trigger] s[i].0, e.0),
        p < s.len() ==> lex_less(e.0, s[p].0),
    ensures
        sorted(s.insert(p, e)),
        map_of(s.insert(p, e)) == map_of(s).insert(e.0, e.1),
{
    let t = s.insert(p, e);
    assert forall|i: int, j: int| 0 <= i < j < t.len() implies lex_less(
        #[trigger] t[i].0,
        #[trigger] t[j].0,
    ) by {
        if j == p {
            assert(t[i] == s[i]);
        } else if i == p {
            assert(t[j] == s[j - 1]);
            if j - 1 > p {
                assert(lex_less(s[p].0, s[j - 1].0));
                lemma_lex_transitive(e.0, s[p].0, s[j - 1].0);
            }
        } else {
            let si = if i < p { i } else { i - 1 };
            let sj = if j < p { j } else { j - 1 };
            assert(t[i] == s[si] && t[j] == s[sj]);
        }
    }
    assert(t[p] == e);
    assert forall|k: Seq<u8>| has_key(t, k) <==> (k == e.0 || has_key(s, k)) by {
        if has_key(t, k) {
            let i = index_of(t, k);
            if i < p {
                assert(s[i].0 == k);
            } else if i > p {
                assert(s[i - 1].0 == k);
            }
        }
        if has_key(s, k) {
            let i = index_of(s, k);
            if i < p {
                assert(t[i].0 == k);
            } else {
                assert(t[i + 1].0 == k);
            }
        }
    }
    assert forall|k: Seq<u8>| has_key(t, k) implies #[trigger] map_of(t)[k] == map_of(s).insert(
        e.0,
        e.1,
    )[k] by {
        let i = index_of(t, k);
        lemma_map_of_at(t, i);
        if i < p {
            assert(t[i] == s[i]);
            lemma_map_of_at(s, i);
            lemma_lex_irreflexive(e.0);
        } else if i > p {
            assert(t[i] == s[i - 1]);
            lemma_map_of_at(s, i - 1);
            if k == e.0 {
                lemma_sorted_distinct(t, i, p);
            }
        }
    }
    assert(map_of(t) =~= map_of(s).insert(e.0, e.1));
}

/// Writing over an entry keeps the order and inserts into the map.
pub proof fn lemma_update_entry(s: Seq<EntryView>, p: int, e: EntryView)
    requires
        sorted(s),
        0 <= p < s.len(),
        s[p].0 == e.0,
    ensures
        sorted(s.update(p, e)),
        map_of(s.update(p, e)) == map_of(s).insert(e.0, e.1),
{
    let t = s.update(p, e);
    assert forall|i: int, j: int| 0 <= i < j < t.len() implies lex_less(
        #[trigger] t[i].0,
        #[trigger] t[j].0,
    ) by {
        assert(t[i].0 == s[i].0 && t[j].0 == s[j].0);
    }
    assert forall|k: Seq<u8>| has_key(t, k) <==> (k == e.0 || has_key(s, k)) by {
        if has_key(t, k) {
            let i = index_of(t, k);
            assert(s[i].0 == k);
        }
        if has_key(s, k) {
            let i = index_of(s, k);
            assert(t[i].0 == k);
        }
        assert(t[p].0 == e.0);
    }
    assert forall|k: Seq<u8>| has_key(t, k) implies #[trigger] map_of(t)[k] == map_of(s).insert(
        e.0,
        e.1,
    )[k] by {
        let i = index_of(t, k);
        lemma_map_of_at(t, i);
        if i != p {
            assert(t[i] == s[i]);
            lemma_map_of_at(s, i);
            if k == e.0 {
                lemma_sorted_distinct(s, i, p);
            }
        }
    }
    assert(map_of(t) =~= map_of(s).insert(e.0, e.1));
}

/// Taking an entry out keeps the order and removes its key from the map.
pub proof fn lemma_remove_entry(s: Seq<EntryView>, p: int)
    requires
        sorted(s),
        0 <= p < s.len(),
    ensures
        sorted(s.remove(p)),
        map_of(s.remove(p)) == map_of(s).remove(s[p].0),
{
    let t = s.remove(p);
    assert forall|i: int, j: int| 0 <= i < j < t.len() implies lex_less(
        #[trigger] t[i].0,
        #[trigger] t[j].0,
    ) by {
        let si = if i < p { i } else { i + 1 };
        let sj = if j < p { j } else { j + 1 };
        assert(t[i] == s[si] && t[j] == s[sj]);
    }
    assert forall|k: Seq<u8>| has_key(t, k) <==> (k != s[p].0 && has_key(s, k)) by {
        if has_key(t, k) {
            let i = index_of(t, k);
            let si = if i < p { i } else { i + 1 };
            assert(s[si].0 == k);
            if k == s[p].0 {
                lemma_sorted_distinct(s, si, p);
            }
        }
        if k != s[p].0 && has_key(s, k) {
            let i = index_of(s, k);
            if i < p {
                assert(t[i].0 == k);
            } else {
                assert(t[i - 1].0 == k);
            }
        }
    }
    assert forall|k: Seq<u8>| has_key(t, k) implies #[trigger] map_of(t)[k] == map_of(s).remove(
        s[p].0,
    )[k] by {
        let i = index_of(t, k);
        lemma_map_of_at(t, i);
        let si = if i < p { i } else { i + 1 };
        assert(t[i] == s[si]);
        lemma_map_of_at(s, si);
    }
    assert(map_of(t) =~= map_of(s).remove(s[p].0));
}

/// A key that no entry holds is not in the map.
pub proof fn lemma_absent(s: Seq<EntryView>, key: Seq<u8>)
    requires
        forall|i: int| 0 <= i < s.len() ==> (#[trigger] s[i]).0 != key,
    ensures
        !map_of(s).contains_key(key),
{
    if has_key(s, key) {
        let i = index_of(s, key);
        assert(s[i].0 == key);
    }
}

/// Two sorted lists that stand for the same map are the same list.
pub proof fn lemma_sorted_unique(a: Seq<EntryView>, b: Seq<EntryView>)
    requires
        sorted(a),
        sorted(b),
        map_of(a) == map_of(b),
    ensures
        a == b,
    decreases a.len(),
{
    if a.len() == 0 {
        if b.len() > 0 {
            lemma_map_of_at(b, 0);
            assert(has_key(a, b[0].0));
        }
        assert(a =~= b);
    } else {
        let la = a.len() - 1;
        lemma_map_of_at(a, la);
        assert(has_key(b, a[la].0));
        let j = index_of(b, a[la].0);
        let lb = b.len() - 1;
        lemma_map_of_at(b, lb);
        assert(has_key(a, b[lb].0));
        let i = index_of(a, b[lb].0);
        // The last key of `a` stands last in `b` too: were it earlier, it
        // would come before the last key of `b`, which `a` holds as well.
        assert(j == lb) by {
            if j < lb {
                assert(lex_less(b[j].0, b[lb].0));
                if i < la {
                    assert(lex_less(a[i].0, a[la].0));
                    lemma_lex_transitive(a[la].0, a[i].0, a[la].0);
                }
                lemma_lex_irreflexive(a[la].0);
            }
        }
        lemma_map_of_at(b, j);
        lemma_remove_entry(a, la);
        lemma_remove_entry(b, lb);
        assert(a.remove(la) =~= a.drop_last());
        assert(b.remove(lb) =~= b.drop_last());
        lemma_sorted_unique(a.drop_last(), b.drop_last());
        assert(a =~= a.drop_last().push(a[la]));
        assert(b =~= b.drop_last().push(b[lb]));
    }
}

/// The map of a sorted list has as many keys as the list has entries.
pub proof fn lemma_map_len(s: Seq<EntryView>)
    requires
        sorted(s),
    ensures
        map_of(s).dom().finite(),
        map_of(s).dom().len() == s.len(),
    decreases s.len(),
{
    if s.len() == 0 {
        assert(map_of(s).dom() =~= Set::<Seq<u8>>::empty());
    } else {
        let last = s.len() - 1;
        lemma_remove_entry(s, last);
        assert(s.remove(last) =~= s.drop_last());
        lemma_map_len(s.drop_last());
        lemma_map_of_at(s, last);
        assert(map_of(s).dom() =~= map_of(s.drop_last()).dom().insert(s[last].0));
    }
}

/// The sorted list that stands for a map.
pub open spec fn canonical(m: Map<Seq<u8>, Option<Seq<u8>>>) -> Seq<EntryView> {
    choose|s: Seq<EntryView>| sorted(s) && map_of(s) == m
}

/// A sorted list is the canonical list of its map.
pub proof fn lemma_canonical(s: Seq<EntryView>)
    requires
        sorted(s),
    ensures
        canonical(map_of(s)) == s,
{
    let c = canonical(map_of(s));
    lemma_sorted_unique(c, s);
}

/// One entry of a key/value list.
#[derive(Clone, Debug, PartialEq, Eq)]
pub struct Entry {
    pub key: Vec<u8>,
    pub value: Option<Vec<u8>>,
}

impl View for Entry {
    type V = EntryView;

    open spec fn view(&self) -> EntryView {
        (self.key@, opt_bytes(self.value))
    }
}

/// The entries that a list of entries stands for.
pub open spec fn entry_views(a: Seq<Entry>) -> Seq<EntryView> {
    Seq::new(a.len(), |i: int| a[i]@)
}

/// A list of entries in the order of their keys, each key at most once.
#[derive(Clone, Debug, PartialEq, Eq)]
pub struct KeyValueList {
    entries: Vec<Entry>,
}

impl View for KeyValueList {
    type V = Seq<EntryView>;

    closed spec fn view(&self) -> Seq<EntryView> {
        entry_views(self.entries@)
    }
}

impl KeyValueList {
    /// The keys strictly increase.
    pub open spec fn wf(&self) -> bool {
        sorted(self@)
    }

    /// The map from each key to what is written under it.
    pub open spec fn map(&self) -> Map<Seq<u8>, Option<Seq<u8>>> {
        map_of(self@)
    }

    /// An empty list.
    pub fn new() -> (r: Self)
        ensures
            r.wf(),
            r@ == Seq::<EntryView>::empty(),
            r.map() == Map::<Seq<u8>, Option<Seq<u8>>>::empty(),
    {
        let r = KeyValueList { entries: Vec::new() };
        assert(r@ =~= Seq::<EntryView>::empty());
        assert(r.map() =~= Map::<Seq<u8>, Option<Seq<u8>>>::empty());
        r
    }

    /// How many entries the list holds.
    pub fn len(&self) -> (n: usize)
        ensures
            n == self@.len(),
    {
        self.entries.len()
    }

    /// The list holds as many keys as entries.
    pub proof fn lemma_len(&self)
        requires
            self.wf(),
        ensures
            self.map().dom().finite(),
            self.map().dom().len() == self@.len(),
    {
        lemma_map_len(self@);
    }

    /// The entry at the place `i`.
    pub fn entry(&self, i: usize) -> (e: &Entry)
        requires
            i < self@.len(),
        ensures
            e@ == self@[i as int],
    {
        &self.entries[i]
    }

    /// Where `key` stands, or where it would have to be put.
    fn locate(&self, key: &[u8]) -> (r: (usize, bool))
        requires
            self.wf(),
        ensures
            r.0 <= self@.len(),
            forall|i: int| 0 <= i < r.0 ==> lex_less(#[trigger] self@[i].0, key@),
            r.1 ==> r.0 < self@.len() && self@[r.0 as int].0 == key@,
            !r.1 ==> (r.0 < self@.len() ==> lex_less(key@, self@[r.0 as int].0)),
            r.1 == self.map().contains_key(key@),
    {
        let mut p: usize = 0;
        while p < self.entries.len()
            invariant
                self.wf(),
                p <= self.entries.len(),
                forall|i: int| 0 <= i < p ==> lex_less(#[trigger] self@[i].0, key@),
            decreases self.entries.len() - p,
        {
            let r = rank(self.entries[p].key.as_slice(), key);
            assert(self@[p as int].0 == self.entries[p as int].key@);
            match r {
                Rank::Before => {
                    p += 1;
                },
                Rank::Same => {
                    proof {
                        lemma_map_of_at(self@, p as int);
                    }
                    return (p, true);
                },
                Rank::After => {
                    proof {
                        self.lemma_gap(key@, p as int);
                    }
                    return (p, false);
                },
            }
        }
        proof {
            self.lemma_gap(key@, p as int);
        }
        (p, false)
    }

    /// A key that falls between two neighbours is not in the list.
    proof fn lemma_gap(&self, key: Seq<u8>, p: int)
        requires
            self.wf(),
            0 <= p <= self@.len(),
            forall|i: int| 0 <= i < p ==> lex_less(#[trigger] self@[i].0, key),
            p < self@.len() ==> lex_less(key, self@[p].0),
        ensures
            !self.map().contains_key(key),
    {
        assert forall|i: int| 0 <= i < self@.len() implies (#[trigger] self@[i]).0 != key by {
            lemma_lex_irreflexive(key);
            if i > p {
                assert(lex_less(self@[p].0, self@[i].0));
                lemma_lex_transitive(key, self@[p].0, self@[i].0);
            }
        }
        lemma_absent(self@, key);
    }

    /// What is written under `key`, if the list has the key.
    pub fn get(&self, key: &[u8]) -> (r: Option<&Option<Vec<u8>>>)
        requires
            self.wf(),
        ensures
            r is Some == self.map().contains_key(key@),
            r is Some ==> opt_bytes(*r.unwrap()) == self.map()[key@],
    {
        let (p, found) = self.locate(key);
        if found {
            proof {
                lemma_map_of_at(self@, p as int);
            }
            Some(&self.entries[p].value)
        } else {
            None
        }
    }

    /// Writes `value` under `key`.
    pub fn put(&mut self, key: Vec<u8>, value: Option<Vec<u8>>)
        requires
            old(self).wf(),
        ensures
            final(self).wf(),
            final(self).map() == old(self).map().insert(key@, opt_bytes(value)),
    {
        let (p, found) = self.locate(key.as_slice());
        let ghost before = self@;
        let ghost e = (key@, opt_bytes(value));
        if found {
            self.entries[p] = Entry { key, value };
            proof {
                assert(self@ =~= before.update(p as int, e));
                lemma_update_entry(before, p as int, e);
            }
        } else {
            self.entries.insert(p, Entry { key, value });
            proof {
                assert(self@ =~= before.insert(p as int, e));
                lemma_insert_entry(before, p as int, e);
            }
        }
    }

    /// Takes `key` out of the list.
    pub fn delete(&mut self, key: &[u8])
        requires
            old(self).wf(),
        ensures
            final(self).wf(),
            final(self).map() == old(self).map().remove(key@),
    {
        let (p, found) = self.locate(key);
        let ghost before = self@;
        if found {
            self.entries.remove(p);
            proof {
                assert(self@ =~= before.remove(p as int));
                lemma_remove_entry(before, p as int);
            }
        } else {
            assert(self.map() =~= self.map().remove(key@));
        }
    }

    /// Empties the list.
    pub fn clear(&mut self)
        ensures
            final(self).wf(),
            final(self)@ == Seq::<EntryView>::empty(),
            final(self).map() == Map::<Seq<u8>, Option<Seq<u8>>>::empty(),
    {
        self.entries.clear();
        assert(self@ =~= Seq::<EntryView>::empty());
        assert(self.map() =~= Map::<Seq<u8>, Option<Seq<u8>>>::empty());
    }

    /// A copy of the list.
    pub fn duplicate(&self) -> (r: Self)
        ensures
            r@ == self@,
    {
        let mut entries: Vec<Entry> = Vec::new();
        let mut i: usize = 0;
        while i < self.entries.len()
            invariant
                i <= self.entries.len(),
                entries@.len() == i,
                forall|k: int| 0 <= k < i ==> entries@[k]@ == self.entries@[k]@,
            decreases self.entries.len() - i,
        {
            let e = &self.entries[i];
            entries.push(Entry { key: copy_bytes(e.key.as_slice()), value: copy_opt_bytes(&e.value) });
            i += 1;
        }
        let r = KeyValueList { entries };
        assert(r@ =~= self@);
        r
    }
}

} // verus!
