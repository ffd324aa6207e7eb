//! The bounded, ordered collection of entries.

use crate::password::{ArrayString, PasswordItem};
use vstd::prelude::*;

verus! {

/// The most entries a store holds.
pub const CAPACITY: usize = 128;

/// The store is full: nothing was added.
#[derive(Clone, Copy, Debug, PartialEq, Eq, Structural)]
pub struct StorageFullError;

/// Some entry of `items` has the name `name`.
pub open spec fn has_name(items: Seq<PasswordItem>, name: Seq<u8>) -> bool {
    exists|i: int| 0 <= i < items.len() && (#[trigger] items[i]).name@ == name
}

/// Entry `i` of `items` is the first one with the name `name`.
pub open spec fn first_named(items: Seq<PasswordItem>, name: Seq<u8>, i: int) -> bool {
    &&& 0 <= i < items.len()
    &&& items[i].name@ == name
    &&& forall|j: int| 0 <= j < i ==> (#[trigger] items[j]).name@ != name
}

/// The index of the first entry with the name `name`, if there is one.
pub open spec fn position_of(items: Seq<PasswordItem>, name: Seq<u8>) -> Option<int> {
    if has_name(items, name) {
        Some(choose|i: int| first_named(items, name, i))
    } else {
        None
    }
}

/// What is left of `items` when the first entry named `name`, if there is
/// one, is removed.
pub open spec fn without_name(items: Seq<PasswordItem>, name: Seq<u8>) -> Seq<PasswordItem> {
    match position_of(items, name) {
        Some(i) => items.remove(i),
        None => items,
    }
}

/// The first entry with a given name is at `i` exactly when `position_of`
/// says so.
pub proof fn lemma_position_of(items: Seq<PasswordItem>, name: Seq<u8>, i: int)
    ensures
        first_named(items, name, i) <==> position_of(items, name) == Some(i),
        position_of(items, name) is None <==> forall|j: int|
            0 <= j < items.len() ==> (#[trigger] items[j]).name@ != name,
{
    if first_named(items, name, i) {
        let c = choose|c: int| first_named(items, name, c);
        assert(first_named(items, name, c));
        if c < i {
            assert(items[c].name@ == name);
        }
        if i < c {
            assert(items[i].name@ == name);
        }
    }
    if has_name(items, name) {
        let w = choose|w: int| 0 <= w < items.len() && (#[trigger] items[w]).name@ == name;
        lemma_first_exists(items, name, w);
    }
}

/// Where some entry up to `w` has the name, there is a first one.
proof fn lemma_first_exists(items: Seq<PasswordItem>, name: Seq<u8>, w: int)
    requires
        0 <= w < items.len(),
        items[w].name@ == name,
    ensures
        exists|i: int| first_named(items, name, i),
    decreases w,
{
    if exists|j: int| 0 <= j < w && (#[trigger] items[j]).name@ == name {
        let j = choose|j: int| 0 <= j < w && (#[trigger] items[j]).name@ == name;
        lemma_first_exists(items, name, j);
    } else {
        assert(first_named(items, name, w));
    }
}

/// No two entries of `items` have the same name.
pub open spec fn unique_names(items: Seq<PasswordItem>) -> bool {
    forall|i: int, j: int|
        0 <= i < items.len() && 0 <= j < items.len() && i != j ==> (#[trigger] items[i]).name@ != (
        #[trigger] items[j]).name@
}

/// Removing an entry keeps names unique.
pub proof fn lemma_remove_keeps_unique(items: Seq<PasswordItem>, i: int)
    requires
        0 <= i < items.len(),
        unique_names(items),
    ensures
        unique_names(items.remove(i)),
{
    let rest = items.remove(i);
    assert forall|a: int, b: int| 0 <= a < rest.len() && 0 <= b < rest.len() && a != b implies (
    #[trigger] rest[a]).name@ != (#[trigger] rest[b]).name@ by {
        let a0 = if a < i {
            a
        } else {
            a + 1
        };
        let b0 = if b < i {
            b
        } else {
            b + 1
        };
        assert(rest[a] == items[a0]);
        assert(rest[b] == items[b0]);
    }
}

/// Removing the only entry with a name leaves none with it, and one entry
/// fewer.
pub proof fn lemma_remove_only_occurrence(items: Seq<PasswordItem>, name: Seq<u8>, i: int)
    requires
        0 <= i < items.len(),
        items[i].name@ == name,
        forall|j: int| 0 <= j < items.len() && j != i ==> (#[trigger] items[j]).name@ != name,
    ensures
        !has_name(items.remove(i), name),
        position_of(items.remove(i), name) is None,
        items.remove(i).len() == items.len() - 1,
{
    let rest = items.remove(i);
    assert forall|j: int| 0 <= j < rest.len() implies (#[trigger] rest[j]).name@ != name by {
        if j < i {
            assert(rest[j] == items[j]);
        } else {
            assert(rest[j] == items[j + 1]);
        }
    }
}

/// An ordered collection of at most `CAPACITY` entries. Entries keep the
/// order in which they were added; a removal closes the gap.
pub struct Store {
    items: Vec<PasswordItem>,
}

impl View for Store {
    type V = Seq<PasswordItem>;

    closed spec fn view(&self) -> Seq<PasswordItem> {
        self.items@
    }
}

impl Store {
    /// The store holds no more than its capacity.
    pub open spec fn wf(&self) -> bool {
        self@.len() <= CAPACITY
    }

    /// An empty store.
    pub fn new() -> (r: Store)
        ensures
            r@ == Seq::<PasswordItem>::empty(),
            r.wf(),
    {
        Store { items: Vec::new() }
    }

    /// Number of entries in the store.
    pub fn len(&self) -> (n: usize)
        ensures
            n == self@.len(),
    {
        self.items.len()
    }

    /// The entry at `index` in the current order, if there is one.
    pub fn get(&self, index: usize) -> (r: Option<PasswordItem>)
        ensures
            index < self@.len() ==> r == Some(self@[index as int]),
            index >= self@.len() ==> r is None,
    {
        if index < self.items.len() {
            Some(self.items[index])
        } else {
            None
        }
    }

    /// The entry at `index`, which must be in range.
    pub fn entry(&self, index: usize) -> (r: PasswordItem)
        requires
            index < self@.len(),
        ensures
            r == self@[index as int],
    {
        self.items[index]
    }

    /// Index of the first entry whose name has the same content as `name`.
    pub fn position(&self, name: &ArrayString<32>) -> (r: Option<usize>)
        ensures
            match r {
                Some(i) => position_of(self@, name@) == Some(i as int) && i < self@.len(),
                None => position_of(self@, name@) is None,
            },
    {
        let mut i: usize = 0;
        while i < self.items.len()
            invariant
                i <= self.items@.len(),
                forall|j: int| 0 <= j < i ==> (#[trigger] self.items@[j]).name@ != name@,
            decreases self.items@.len() - i,
        {
            if self.items[i].name == *name {
                proof {
                    assert(first_named(self@, name@, i as int));
                    lemma_position_of(self@, name@, i as int);
                }
                return Some(i);
            }
            i += 1;
        }
        proof {
            lemma_position_of(self@, name@, 0);
        }
        None
    }

    /// The first entry whose name has the same content as `name`, with its
    /// index.
    pub fn find_by_name(&self, name: &ArrayString<32>) -> (r: Option<(usize, PasswordItem)>)
        ensures
            match r {
                Some((i, item)) => position_of(self@, name@) == Some(i as int) && i < self@.len()
                    && item == self@[i as int],
                None => position_of(self@, name@) is None,
            },
    {
        match self.position(name) {
            Some(i) => Some((i, self.items[i])),
            None => None,
        }
    }

    /// Appends `item` where there is room; a full store stays as it is.
    pub fn add(&mut self, item: &PasswordItem) -> (r: Result<(), StorageFullError>)
        requires
            old(self).wf(),
        ensures
            final(self).wf(),
            old(self)@.len() < CAPACITY ==> r is Ok && final(self)@ == old(self)@.push(*item),
            old(self)@.len() >= CAPACITY ==> r is Err && final(self)@ == old(self)@,
    {
        if self.items.len() < CAPACITY {
            self.items.push(*item);
            Ok(())
        } else {
            Err(StorageFullError)
        }
    }

    /// Deletes the entry at `index`; the entries after it move down by one.
    pub fn remove(&mut self, index: usize)
        requires
            index < old(self)@.len(),
        ensures
            final(self)@ == old(self)@.remove(index as int),
            old(self).wf() ==> final(self).wf(),
    {
        self.items.remove(index);
    }

    /// Empties the store.
    pub fn clear(&mut self)
        ensures
            final(self)@ == Seq::<PasswordItem>::empty(),
            final(self).wf(),
    {
        self.items.clear();
    }
}

} // verus!
