//! A list that stores every distinct content exactly once.

use vstd::prelude::*;

verus! {

/// An item that carries an identifier next to its content.
///
/// Two items are equivalent when their contents are equal, whatever their
/// identifiers are.
pub trait DedupItem: Sized {
    /// The content of an item, without its identifier.
    type Content;

    /// The content of this item.
    spec fn content(&self) -> Self::Content;

    /// Whether the two items have the same content.
    fn is_equivalent_to(&self, other: &Self) -> (r: bool)
        ensures
            r == (self.content() == other.content()),
    ;
}

/// An append-only list in which no two items have the same content.
///
/// The index of an item is its identifier: it never changes after the item
/// was inserted.
pub struct DedupList<T> {
    items: Vec<T>,
}

impl<T> DedupList<T> {
    /// The items of the list, by index.
    pub closed spec fn view(&self) -> Seq<T> {
        self.items@
    }

    /// An empty list.
    pub fn new() -> (r: Self)
        ensures
            r@ == Seq::<T>::empty(),
    {
        Self { items: Vec::new() }
    }

    /// Whether the list holds no item.
    pub fn is_empty(&self) -> (r: bool)
        ensures
            r == (self@.len() == 0),
    {
        self.items.len() == 0
    }

    /// The number of items in the list.
    pub fn len(&self) -> (r: usize)
        ensures
            r == self@.len(),
    {
        self.items.len()
    }

    /// Removes every item.
    pub fn clear(&mut self)
        ensures
            final(self)@ == Seq::<T>::empty(),
    {
        self.items.clear();
    }

    /// The item at `index`.
    pub fn get(&self, index: usize) -> (r: &T)
        requires
            index < self@.len(),
        ensures
            *r == self@[index as int],
    {
        &self.items[index]
    }
}

impl<T: DedupItem> DedupList<T> {
    /// The contents of the items, by index.
    pub open spec fn contents(&self) -> Seq<T::Content> {
        Seq::new(self@.len(), |i: int| self@[i].content())
    }

    /// No two items of the list have the same content.
    pub open spec fn wf(&self) -> bool {
        forall|i: int, j: int|
            0 <= i < j < self@.len() ==> self@[i].content() != self@[j].content()
    }

    /// Whether some item of the list has the content `c`.
    pub open spec fn holds(&self, c: T::Content) -> bool {
        exists|i: int| 0 <= i < self@.len() && #[trigger] self@[i].content() == c
    }

    /// The index of the item with content `c`, where the list holds one.
    pub open spec fn position(&self, c: T::Content) -> int {
        choose|i: int| 0 <= i < self@.len() && #[trigger] self@[i].content() == c
    }

    /// What `insert` does with a candidate `item`: where the list already
    /// holds its content nothing changes and `id` is the index of the item
    /// that was there; otherwise `item` is appended and `id` is its index.
    pub open spec fn inserted(pre: Self, post: Self, item: T, id: usize) -> bool {
        if pre.holds(item.content()) {
            &&& post@ == pre@
            &&& 0 <= id < pre@.len()
            &&& pre@[id as int].content() == item.content()
        } else {
            &&& post@ == pre@.push(item)
            &&& id == pre@.len()
        }
    }

    /// Interns the item that `make` builds for the next free index.
    ///
    /// `make` is called once, with the index that the item gets if its
    /// content is new.
    pub fn insert<F: FnOnce(usize) -> T>(&mut self, make: F) -> (id: usize)
        requires
            old(self).wf(),
            make.requires((old(self)@.len() as usize,)),
        ensures
            final(self).wf(),
            exists|item: T|
                make.ensures((old(self)@.len() as usize,), item) && Self::inserted(
                    *old(self),
                    *final(self),
                    item,
                    id,
                ),
    {
        let pot_id = self.items.len();
        let pot_item = make(pot_id);
        let mut i: usize = 0;
        while i < self.items.len()
            invariant
                0 <= i <= self.items@.len(),
                self.items@ == old(self).items@,
                old(self).wf(),
                pot_id == old(self)@.len(),
                make.ensures((pot_id,), pot_item),
                forall|k: int| 0 <= k < i ==> self.items@[k].content() != pot_item.content(),
            decreases self.items@.len() - i,
        {
            if self.items[i].is_equivalent_to(&pot_item) {
                assert(Self::inserted(*old(self), *self, pot_item, i));
                return i;
            }
            i += 1;
        }
        self.items.push(pot_item);
        assert(Self::inserted(*old(self), *self, pot_item, pot_id));
        pot_id
    }
}

} // verus!
