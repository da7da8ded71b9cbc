//! A list of byte strings that never holds more items than the capacity it was
//! made with.

use vstd::prelude::*;
use crate::bytes::{bytes_eq, contents, copy_list};

verus! {

/// Why a bounded collection refused a change.
#[derive(Clone, Copy, Debug, PartialEq, Eq, Structural)]
pub enum CollectionError {
    /// The collection already holds as many items as it may.
    CapacityExceeded,
    /// The item or key to remove is not in the collection.
    NotPresent,
    /// The key to insert is already in the collection.
    DuplicateKey,
}

/// Whether `i` is the place of the first item of `s` equal to `item`.
pub open spec fn is_first_index(s: Seq<Seq<u8>>, item: Seq<u8>, i: int) -> bool {
    &&& 0 <= i < s.len()
    &&& s[i] == item
    &&& forall|j: int| 0 <= j < i ==> s[j] != item
}

/// The place of the first item of `s` equal to `item`, where there is one.
pub open spec fn first_index(s: Seq<Seq<u8>>, item: Seq<u8>) -> int {
    choose|i: int| is_first_index(s, item, i)
}

/// `s` without the first item equal to `item`; `s` itself where there is none.
pub open spec fn without_first(s: Seq<Seq<u8>>, item: Seq<u8>) -> Seq<Seq<u8>> {
    if s.contains(item) {
        s.remove(first_index(s, item))
    } else {
        s
    }
}

/// A first occurrence is the first occurrence.
pub proof fn lemma_first_index(s: Seq<Seq<u8>>, item: Seq<u8>, i: int)
    requires
        is_first_index(s, item, i),
    ensures
        s.contains(item),
        first_index(s, item) == i,
        without_first(s, item) == s.remove(i),
{
    let k = first_index(s, item);
    assert(is_first_index(s, item, k));
    if k < i {
        assert(s[k] != item);
    }
    if i < k {
        assert(s[i] != item);
    }
}

/// An item that occurs at `j` has a first occurrence.
proof fn lemma_first_index_below(s: Seq<Seq<u8>>, item: Seq<u8>, j: int)
    requires
        0 <= j < s.len(),
        s[j] == item,
    ensures
        exists|i: int| is_first_index(s, item, i),
    decreases j,
{
    if exists|k: int| 0 <= k < j && s[k] == item {
        let k = choose|k: int| 0 <= k < j && s[k] == item;
        lemma_first_index_below(s, item, k);
    } else {
        assert(is_first_index(s, item, j));
    }
}

/// An item that occurs in a list has a first occurrence, and without it the
/// list is one item shorter.
pub proof fn lemma_first_index_exists(s: Seq<Seq<u8>>, item: Seq<u8>)
    requires
        s.contains(item),
    ensures
        is_first_index(s, item, first_index(s, item)),
        without_first(s, item).len() == s.len() - 1,
{
    let j = choose|j: int| 0 <= j < s.len() && s[j] == item;
    lemma_first_index_below(s, item, j);
}

/// An ordered list of byte strings with a fixed capacity. Insertion order is
/// kept and equal items may occur more than once.
#[derive(Debug, PartialEq, Eq)]
pub struct BoundedList {
    items: Vec<Vec<u8>>,
    bound: u32,
}

impl View for BoundedList {
    type V = Seq<Seq<u8>>;

    closed spec fn view(&self) -> Seq<Seq<u8>> {
        contents(self.items@)
    }
}

impl BoundedList {
    /// The list never holds more items than its capacity.
    #[verifier::type_invariant]
    pub closed spec fn wf(self) -> bool {
        self.items@.len() <= self.bound
    }

    /// The largest number of items the list may hold.
    pub closed spec fn capacity(&self) -> u32 {
        self.bound
    }

    /// A well-formed list keeps within its capacity.
    pub proof fn lemma_len(&self)
        requires
            self.wf(),
        ensures
            self@.len() <= self.capacity(),
    {
    }

    /// An empty list that will hold at most `capacity` items.
    pub fn new(capacity: u32) -> (list: Self)
        ensures
            list.wf(),
            list@ == Seq::<Seq<u8>>::empty(),
            list.capacity() == capacity,
    {
        let list = BoundedList { items: Vec::new(), bound: capacity };
        assert(list@ =~= Seq::<Seq<u8>>::empty());
        list
    }

    /// The list that holds `items` in their order, unless they are more than
    /// `capacity`.
    pub fn from_vec(items: Vec<Vec<u8>>, capacity: u32) -> (made: Option<Self>)
        ensures
            made is Some == (items@.len() <= capacity),
            match made {
                Some(list) => list.wf() && list@ == contents(items@) && list.capacity()
                    == capacity,
                None => true,
            },
    {
        if items.len() > capacity as usize {
            None
        } else {
            Some(BoundedList { items, bound: capacity })
        }
    }

    /// The number of items held, which never exceeds the capacity.
    pub fn len(&self) -> (n: u32)
        ensures
            n == self@.len(),
            n <= self.capacity(),
    {
        proof {
            use_type_invariant(self);
        }
        self.items.len() as u32
    }

    /// The capacity the list was made with.
    pub fn max_len(&self) -> (n: u32)
        ensures
            n == self.capacity(),
    {
        self.bound
    }

    /// Whether another item would be refused.
    pub fn is_full(&self) -> (full: bool)
        ensures
            full == (self@.len() == self.capacity()),
    {
        proof {
            use_type_invariant(self);
        }
        self.items.len() == self.bound as usize
    }

    /// The place of the first item equal to `item`, if there is one.
    pub fn position(&self, item: &Vec<u8>) -> (found: Option<usize>)
        ensures
            match found {
                Some(i) => is_first_index(self@, item@, i as int),
                None => !self@.contains(item@),
            },
    {
        let mut i: usize = 0;
        while i < self.items.len()
            invariant
                0 <= i <= self.items@.len(),
                forall|j: int| 0 <= j < i ==> self@[j] != item@,
            decreases self.items@.len() - i,
        {
            if bytes_eq(&self.items[i], item) {
                return Some(i);
            }
            i += 1;
        }
        None
    }

    /// Whether some item equals `item`.
    pub fn contains(&self, item: &Vec<u8>) -> (found: bool)
        ensures
            found == self@.contains(item@),
    {
        self.position(item).is_some()
    }

    /// Appends `item`, unless the list is full: then nothing changes.
    pub fn try_insert(&mut self, item: Vec<u8>) -> (done: Result<(), CollectionError>)
        ensures
            final(self).wf(),
            final(self).capacity() == old(self).capacity(),
            old(self)@.len() < old(self).capacity() ==> done == Ok::<(), CollectionError>(())
                && final(self)@ == old(self)@.push(item@),
            old(self)@.len() >= old(self).capacity() ==> done == Err::<(), CollectionError>(
                CollectionError::CapacityExceeded,
            ) && final(self)@ == old(self)@,
    {
        proof {
            use_type_invariant(&*self);
        }
        if self.items.len() >= self.bound as usize {
            return Err(CollectionError::CapacityExceeded);
        }
        // The items leave the list while they change, so that the list is
        // within its capacity at every step.
        let mut items: Vec<Vec<u8>> = Vec::new();
        std::mem::swap(&mut items, &mut self.items);
        items.push(item);
        self.items = items;
        assert(self@ =~= old(self)@.push(item@));
        Ok(())
    }

    /// Removes the first item equal to `item`; where there is none, nothing
    /// changes.
    pub fn remove(&mut self, item: &Vec<u8>) -> (done: Result<(), CollectionError>)
        ensures
            final(self).wf(),
            final(self).capacity() == old(self).capacity(),
            final(self)@ == without_first(old(self)@, item@),
            done == if old(self)@.contains(item@) {
                Ok::<(), CollectionError>(())
            } else {
                Err::<(), CollectionError>(CollectionError::NotPresent)
            },
    {
        proof {
            use_type_invariant(&*self);
        }
        match self.position(item) {
            None => Err(CollectionError::NotPresent),
            Some(i) => {
                proof {
                    lemma_first_index(self@, item@, i as int);
                }
                let mut items: Vec<Vec<u8>> = Vec::new();
                std::mem::swap(&mut items, &mut self.items);
                items.remove(i);
                self.items = items;
                assert(self@ =~= old(self)@.remove(i as int));
                Ok(())
            },
        }
    }

    /// A copy of the items, in order.
    pub fn to_vec(&self) -> (items: Vec<Vec<u8>>)
        ensures
            contents(items@) == self@,
    {
        copy_list(&self.items)
    }
}

impl Clone for BoundedList {
    /// A copy of the list, with the same capacity.
    fn clone(&self) -> (copy: Self)
        ensures
            copy.wf(),
            copy@ == self@,
            copy.capacity() == self.capacity(),
    {
        proof {
            use_type_invariant(self);
        }
        let items = copy_list(&self.items);
        assert(items@.len() == contents(items@).len());
        assert(self.items@.len() == contents(self.items@).len());
        BoundedList { items, bound: self.bound }
    }
}

} // verus!
