//! A map from chain identifiers to byte strings that never holds more entries
//! than the capacity it was made with. Its entries are kept in the order of
//! their keys, so equal maps are laid out alike.

use vstd::prelude::*;
use crate::bounded_list::CollectionError;
use crate::bytes::copy_bytes;

verus! {

/// The entries of a list of pairs, each value taken by its contents.
pub open spec fn entry_views(items: Seq<(u32, Vec<u8>)>) -> Seq<(u32, Seq<u8>)> {
    Seq::new(items.len(), |i: int| (items[i].0, items[i].1@))
}

/// Each key is smaller than every key after it.
pub open spec fn strictly_increasing(s: Seq<(u32, Seq<u8>)>) -> bool {
    forall|i: int, j: int| #![trigger s[i], s[j]] 0 <= i < j < s.len() ==> s[i].0 < s[j].0
}

/// Whether some entry of `s` has the key `k`.
pub open spec fn has_key(s: Seq<(u32, Seq<u8>)>, k: u32) -> bool {
    exists|i: int| 0 <= i < s.len() && (#[trigger] s[i]).0 == k
}

/// The place of an entry of `s` with the key `k`, where there is one.
pub open spec fn key_index(s: Seq<(u32, Seq<u8>)>, k: u32) -> int {
    choose|i: int| 0 <= i < s.len() && (#[trigger] s[i]).0 == k
}

/// The map that a list of entries stands for.
pub open spec fn as_map(s: Seq<(u32, Seq<u8>)>) -> Map<u32, Seq<u8>> {
    Map::new(|k: u32| has_key(s, k), |k: u32| s[key_index(s, k)].1)
}

/// The place where the key `k` belongs in `s`: every key before it is
/// smaller, and no key from it on is.
pub open spec fn is_lower_bound(s: Seq<(u32, Seq<u8>)>, k: u32, p: int) -> bool {
    &&& 0 <= p <= s.len()
    &&& forall|i: int| 0 <= i < p ==> (#[trigger] s[i]).0 < k
    &&& forall|i: int| p <= i < s.len() ==> k <= (#[trigger] s[i]).0
}

/// In an increasing list every entry is what the map holds under its key.
pub proof fn lemma_as_map_entry(s: Seq<(u32, Seq<u8>)>, i: int)
    requires
        strictly_increasing(s),
        0 <= i < s.len(),
    ensures
        as_map(s).contains_key(s[i].0),
        as_map(s)[s[i].0] == s[i].1,
        key_index(s, s[i].0) == i,
{
    let k = s[i].0;
    assert(has_key(s, k));
    let j = key_index(s, k);
    assert(0 <= j < s.len() && s[j].0 == k);
    if j < i {
        assert(s[j].0 < s[i].0);
    }
    if i < j {
        assert(s[i].0 < s[j].0);
    }
}

/// Whether `k` is a key shows at the place where it belongs.
pub proof fn lemma_lower_bound(s: Seq<(u32, Seq<u8>)>, k: u32, p: int)
    requires
        strictly_increasing(s),
        is_lower_bound(s, k, p),
    ensures
        as_map(s).contains_key(k) <==> (p < s.len() && s[p].0 == k),
{
    if has_key(s, k) {
        let j = key_index(s, k);
        assert(s[j].0 == k);
        if j < p {
            assert(s[j].0 < k);
        }
        if p < j {
            assert(s[p].0 < s[j].0);
        }
    }
    if p < s.len() && s[p].0 == k {
        assert(has_key(s, k));
    }
}

/// Putting a new key at the place where it belongs keeps the order and adds
/// one entry to the map.
pub proof fn lemma_as_map_insert(s: Seq<(u32, Seq<u8>)>, p: int, k: u32, v: Seq<u8>)
    requires
        strictly_increasing(s),
        is_lower_bound(s, k, p),
        !as_map(s).contains_key(k),
    ensures
        strictly_increasing(s.insert(p, (k, v))),
        as_map(s.insert(p, (k, v))) == as_map(s).insert(k, v),
{
    let t = s.insert(p, (k, v));
    lemma_lower_bound(s, k, p);
    assert forall|i: int, j: int| #![trigger t[i], t[j]] 0 <= i < j < t.len() implies t[i].0
        < t[j].0 by {
        let a = if i < p { i } else { i - 1 };
        let b = if j < p { j } else { j - 1 };
        if i != p && j != p {
            assert(s[a].0 < s[b].0);
        } else if i == p {
            assert(k <= s[b].0);
        } else {
            assert(s[a].0 < k);
        }
    }
    assert forall|x: u32| as_map(t).contains_key(x) <==> (x == k || as_map(s).contains_key(
        x,
    )) by {
        if has_key(t, x) {
            let i = key_index(t, x);
            if i < p {
                assert(s[i].0 == x);
            } else if i > p {
                assert(s[i - 1].0 == x);
            }
        }
        if x == k {
            assert(t[p].0 == x);
        }
        if has_key(s, x) {
            let i = key_index(s, x);
            if i < p {
                assert(t[i].0 == x);
            } else {
                assert(t[i + 1].0 == x);
            }
        }
    }
    assert forall|x: u32| as_map(t).contains_key(x) implies as_map(t)[x] == as_map(s).insert(
        k,
        v,
    )[x] by {
        let i = key_index(t, x);
        lemma_as_map_entry(t, i);
        if i < p {
            lemma_as_map_entry(s, i);
        } else if i > p {
            lemma_as_map_entry(s, i - 1);
        }
    }
    assert(as_map(t) =~= as_map(s).insert(k, v));
}

/// Taking an entry out keeps the order and removes its key from the map.
pub proof fn lemma_as_map_remove(s: Seq<(u32, Seq<u8>)>, p: int)
    requires
        strictly_increasing(s),
        0 <= p < s.len(),
    ensures
        strictly_increasing(s.remove(p)),
        as_map(s.remove(p)) == as_map(s).remove(s[p].0),
{
    let t = s.remove(p);
    let k = s[p].0;
    assert forall|i: int, j: int| #![trigger t[i], t[j]] 0 <= i < j < t.len() implies t[i].0
        < t[j].0 by {
        let a = if i < p { i } else { i + 1 };
        let b = if j < p { j } else { j + 1 };
        assert(s[a].0 < s[b].0);
    }
    assert forall|x: u32| as_map(t).contains_key(x) <==> (x != k && as_map(s).contains_key(
        x,
    )) by {
        if has_key(t, x) {
            let i = key_index(t, x);
            let a = if i < p { i } else { i + 1 };
            assert(s[a].0 == x);
            if a < p {
                assert(s[a].0 < s[p].0);
            } else {
                assert(s[p].0 < s[a].0);
            }
        }
        if x != k && has_key(s, x) {
            let i = key_index(s, x);
            if i < p {
                assert(t[i].0 == x);
            } else {
                assert(t[i - 1].0 == x);
            }
        }
    }
    assert forall|x: u32| as_map(t).contains_key(x) implies as_map(t)[x] == as_map(s)[x] by {
        let i = key_index(t, x);
        lemma_as_map_entry(t, i);
        if i < p {
            lemma_as_map_entry(s, i);
        } else {
            lemma_as_map_entry(s, i + 1);
        }
    }
    assert(as_map(t) =~= as_map(s).remove(k));
}

/// An increasing list stands for a map with as many keys as it has entries.
pub proof fn lemma_as_map_len(s: Seq<(u32, Seq<u8>)>)
    requires
        strictly_increasing(s),
    ensures
        as_map(s).dom().finite(),
        as_map(s).len() == s.len(),
    decreases s.len(),
{
    if s.len() == 0 {
        assert(as_map(s) =~= Map::<u32, Seq<u8>>::empty());
    } else {
        let p = s.len() - 1;
        let t = s.remove(p);
        lemma_as_map_remove(s, p);
        lemma_as_map_entry(s, p);
        lemma_as_map_len(t);
        assert(as_map(s) =~= as_map(t).insert(s[p].0, s[p].1));
    }
}

/// An increasing list is determined by the map it stands for.
pub proof fn lemma_entries_determined(a: Seq<(u32, Seq<u8>)>, b: Seq<(u32, Seq<u8>)>)
    requires
        strictly_increasing(a),
        strictly_increasing(b),
        as_map(a) == as_map(b),
    ensures
        a == b,
    decreases a.len(),
{
    lemma_as_map_len(a);
    lemma_as_map_len(b);
    if a.len() > 0 {
        let p = a.len() - 1;
        lemma_as_map_entry(a, p);
        lemma_as_map_entry(b, p);
        // The last key of each list is the largest key of the map.
        assert(has_key(b, a[p].0));
        let j = key_index(b, a[p].0);
        assert(has_key(a, b[p].0));
        let i = key_index(a, b[p].0);
        if j < p {
            assert(b[j].0 < b[p].0);
            if i < p {
                assert(a[i].0 < a[p].0);
            }
        }
        assert(j == p);
        assert(a[p] == b[p]);
        lemma_as_map_remove(a, p);
        lemma_as_map_remove(b, p);
        lemma_entries_determined(a.remove(p), b.remove(p));
        assert(a =~= a.remove(p).push(a[p]));
        assert(b =~= b.remove(p).push(b[p]));
    }
    assert(a =~= b);
}

/// A copy of a list of entries, entry by entry.
pub fn copy_entries(entries: &Vec<(u32, Vec<u8>)>) -> (copy: Vec<(u32, Vec<u8>)>)
    ensures
        entry_views(copy@) == entry_views(entries@),
{
    let mut copy: Vec<(u32, Vec<u8>)> = Vec::with_capacity(entries.len());
    let mut i: usize = 0;
    while i < entries.len()
        invariant
            0 <= i <= entries@.len(),
            copy@.len() == i,
            forall|j: int|
                0 <= j < i ==> (#[trigger] copy@[j]).0 == entries@[j].0 && copy@[j].1@
                    == entries@[j].1@,
        decreases entries@.len() - i,
    {
        copy.push((entries[i].0, copy_bytes(&entries[i].1)));
        i += 1;
    }
    assert(entry_views(copy@) =~= entry_views(entries@));
    copy
}

/// A map from `u32` keys to byte strings with a fixed capacity.
#[derive(Debug, PartialEq, Eq)]
pub struct BoundedMap {
    items: Vec<(u32, Vec<u8>)>,
    bound: u32,
}

impl View for BoundedMap {
    type V = Map<u32, Seq<u8>>;

    closed spec fn view(&self) -> Map<u32, Seq<u8>> {
        as_map(self.entries())
    }
}

impl BoundedMap {
    /// The entries are ordered by key, which makes the keys distinct, and
    /// there are never more of them than the capacity.
    #[verifier::type_invariant]
    pub closed spec fn wf(self) -> bool {
        &&& self.items@.len() <= self.bound
        &&& strictly_increasing(entry_views(self.items@))
    }

    /// The entries in the order in which they are kept.
    pub closed spec fn entries(&self) -> Seq<(u32, Seq<u8>)> {
        entry_views(self.items@)
    }

    /// The largest number of entries the map may hold.
    pub closed spec fn capacity(&self) -> u32 {
        self.bound
    }

    /// What a well-formed map's entries and view have to do with each other.
    pub proof fn lemma_entries(&self)
        requires
            self.wf(),
        ensures
            strictly_increasing(self.entries()),
            self@ == as_map(self.entries()),
            self@.dom().finite(),
            self@.len() == self.entries().len(),
            self@.len() <= self.capacity(),
    {
        lemma_as_map_len(self.entries());
    }

    /// An empty map that will hold at most `capacity` entries.
    pub fn new(capacity: u32) -> (map: Self)
        ensures
            map.wf(),
            map@ == Map::<u32, Seq<u8>>::empty(),
            map.entries() == Seq::<(u32, Seq<u8>)>::empty(),
            map.capacity() == capacity,
    {
        let map = BoundedMap { items: Vec::new(), bound: capacity };
        assert(map.entries() =~= Seq::<(u32, Seq<u8>)>::empty());
        assert(map@ =~= Map::<u32, Seq<u8>>::empty());
        map
    }

    /// The map that holds `entries`, unless they are more than `capacity` or
    /// their keys do not increase from each entry to the next.
    pub fn from_vec(entries: Vec<(u32, Vec<u8>)>, capacity: u32) -> (made: Option<Self>)
        ensures
            made is Some == (entries@.len() <= capacity && strictly_increasing(
                entry_views(entries@),
            )),
            match made {
                Some(map) => map.wf() && map.entries() == entry_views(entries@) && map@ == as_map(
                    entry_views(entries@),
                ) && map.capacity() == capacity,
                None => true,
            },
    {
        if entries.len() > capacity as usize {
            return None;
        }
        let ghost s = entry_views(entries@);
        let mut i: usize = 1;
        while i < entries.len()
            invariant
                1 <= i,
                s == entry_views(entries@),
                forall|a: int, b: int|
                    #![trigger s[a], s[b]]
                    0 <= a < b < i && b < s.len() ==> s[a].0 < s[b].0,
            decreases entries@.len() - i,
        {
            if entries[i - 1].0 >= entries[i].0 {
                assert(!(s[i - 1].0 < s[i as int].0));
                return None;
            }
            proof {
                assert forall|a: int, b: int|
                    #![trigger s[a], s[b]]
                    0 <= a < b < i + 1 && b < s.len() implies s[a].0 < s[b].0 by {
                    if b == i && a < i - 1 {
                        assert(s[a].0 < s[i - 1].0);
                    }
                }
            }
            i += 1;
        }
        Some(BoundedMap { items: entries, bound: capacity })
    }

    /// The number of entries held, which never exceeds the capacity.
    pub fn len(&self) -> (n: u32)
        ensures
            n == self@.len(),
            n <= self.capacity(),
    {
        proof {
            use_type_invariant(self);
            self.lemma_entries();
        }
        self.items.len() as u32
    }

    /// The capacity the map was made with.
    pub fn max_len(&self) -> (n: u32)
        ensures
            n == self.capacity(),
    {
        self.bound
    }

    /// Whether another key would be refused.
    pub fn is_full(&self) -> (full: bool)
        ensures
            full == (self@.len() == self.capacity()),
    {
        proof {
            use_type_invariant(self);
            self.lemma_entries();
        }
        self.items.len() == self.bound as usize
    }

    /// The place where `key` belongs among the entries.
    fn lower_bound(&self, key: u32) -> (p: usize)
        ensures
            is_lower_bound(self.entries(), key, p as int),
    {
        proof {
            use_type_invariant(self);
        }
        let mut p: usize = 0;
        while p < self.items.len() && self.items[p].0 < key
            invariant
                0 <= p <= self.items@.len(),
                forall|i: int| 0 <= i < p ==> (#[trigger] self.entries()[i]).0 < key,
            decreases self.items@.len() - p,
        {
            p += 1;
        }
        proof {
            let s = self.entries();
            assert forall|i: int| p <= i < s.len() implies key <= (#[trigger] s[i]).0 by {
                assert(key <= s[p as int].0);
                if p < i {
                    assert(s[p as int].0 < s[i].0);
                }
            }
        }
        p
    }

    /// Whether `key` has an entry.
    pub fn contains_key(&self, key: u32) -> (found: bool)
        ensures
            found == self@.contains_key(key),
    {
        proof {
            use_type_invariant(self);
        }
        let p = self.lower_bound(key);
        proof {
            lemma_lower_bound(self.entries(), key, p as int);
        }
        p < self.items.len() && self.items[p].0 == key
    }

    /// The value under `key`, if it has an entry.
    pub fn get(&self, key: u32) -> (value: Option<&Vec<u8>>)
        ensures
            match value {
                Some(v) => self@.contains_key(key) && self@[key] == v@,
                None => !self@.contains_key(key),
            },
    {
        proof {
            use_type_invariant(self);
        }
        let p = self.lower_bound(key);
        proof {
            lemma_lower_bound(self.entries(), key, p as int);
        }
        if p < self.items.len() && self.items[p].0 == key {
            proof {
                lemma_as_map_entry(self.entries(), p as int);
            }
            Some(&self.items[p].1)
        } else {
            None
        }
    }

    /// Adds the entry `key -> value`. A full map refuses it, and so does a
    /// map that already has `key`; then nothing changes.
    pub fn try_insert(&mut self, key: u32, value: Vec<u8>) -> (done: Result<(), CollectionError>)
        ensures
            final(self).wf(),
            final(self).capacity() == old(self).capacity(),
            done == if old(self)@.len() >= old(self).capacity() {
                Err::<(), CollectionError>(CollectionError::CapacityExceeded)
            } else if old(self)@.contains_key(key) {
                Err::<(), CollectionError>(CollectionError::DuplicateKey)
            } else {
                Ok::<(), CollectionError>(())
            },
            done is Ok ==> final(self)@ == old(self)@.insert(key, value@),
            done is Err ==> final(self)@ == old(self)@ && final(self).entries() == old(
                self,
            ).entries(),
    {
        proof {
            use_type_invariant(&*self);
            self.lemma_entries();
        }
        if self.items.len() >= self.bound as usize {
            return Err(CollectionError::CapacityExceeded);
        }
        let p = self.lower_bound(key);
        proof {
            lemma_lower_bound(self.entries(), key, p as int);
        }
        if p < self.items.len() && self.items[p].0 == key {
            return Err(CollectionError::DuplicateKey);
        }
        proof {
            lemma_as_map_insert(self.entries(), p as int, key, value@);
        }
        // The entries leave the map while they change, so that the map is
        // well formed at every step.
        let mut items: Vec<(u32, Vec<u8>)> = Vec::new();
        std::mem::swap(&mut items, &mut self.items);
        items.insert(p, (key, value));
        proof {
            assert(entry_views(items@) =~= old(self).entries().insert(p as int, (key, value@)));
        }
        self.items = items;
        Ok(())
    }

    /// Removes the entry of `key`; where there is none, nothing changes.
    pub fn remove(&mut self, key: u32) -> (done: Result<(), CollectionError>)
        ensures
            final(self).wf(),
            final(self).capacity() == old(self).capacity(),
            done == if old(self)@.contains_key(key) {
                Ok::<(), CollectionError>(())
            } else {
                Err::<(), CollectionError>(CollectionError::NotPresent)
            },
            final(self)@ == old(self)@.remove(key),
            done is Err ==> final(self).entries() == old(self).entries(),
    {
        proof {
            use_type_invariant(&*self);
        }
        let p = self.lower_bound(key);
        proof {
            lemma_lower_bound(self.entries(), key, p as int);
        }
        if !(p < self.items.len() && self.items[p].0 == key) {
            assert(self@ =~= self@.remove(key));
            return Err(CollectionError::NotPresent);
        }
        proof {
            lemma_as_map_remove(self.entries(), p as int);
        }
        let mut items: Vec<(u32, Vec<u8>)> = Vec::new();
        std::mem::swap(&mut items, &mut self.items);
        items.remove(p);
        proof {
            assert(entry_views(items@) =~= old(self).entries().remove(p as int));
        }
        self.items = items;
        Ok(())
    }

    /// A copy of the entries, in the order of their keys.
    pub fn to_vec(&self) -> (items: Vec<(u32, Vec<u8>)>)
        ensures
            entry_views(items@) == self.entries(),
    {
        copy_entries(&self.items)
    }
}

impl Clone for BoundedMap {
    /// A copy of the map, with the same capacity.
    fn clone(&self) -> (copy: Self)
        ensures
            copy.wf(),
            copy@ == self@,
            copy.entries() == self.entries(),
            copy.capacity() == self.capacity(),
    {
        proof {
            use_type_invariant(self);
        }
        let items = self.to_vec();
        assert(items@.len() == entry_views(items@).len());
        assert(self.items@.len() == entry_views(self.items@).len());
        BoundedMap { items, bound: self.bound }
    }
}

} // verus!
