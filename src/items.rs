//! The listing of catalog items the site kept.
use vstd::prelude::*;
use crate::item::{
    after, lemma_text_after_irreflexive, lemma_text_after_total, lemma_text_after_trans, same_item,
    text_after, Item,
};

verus! {

/// The identifiers of `items`, in order.
pub open spec fn ids_of(items: Seq<Item>) -> Seq<Seq<char>> {
    items.map_values(|i: Item| i.identifier@)
}

/// The identifiers after adding `incoming` one by one to a listing with
/// identifiers `ids`, each only if its identifier is not there yet.
pub open spec fn ids_after_add(ids: Seq<Seq<char>>, incoming: Seq<Seq<char>>) -> Seq<Seq<char>>
    decreases incoming.len(),
{
    if incoming.len() == 0 {
        ids
    } else {
        let prev = ids_after_add(ids, incoming.drop_last());
        if prev.contains(incoming.last()) {
            prev
        } else {
            prev.push(incoming.last())
        }
    }
}

/// A listing of items.
pub struct Items {
    pub items: Vec<Item>,
}

impl Items {
    pub fn new(items: Vec<Item>) -> (r: Items)
        ensures
            r.items == items,
    {
        Items { items }
    }

    pub fn len(&self) -> (r: usize)
        ensures
            r == self.items.len(),
    {
        self.items.len()
    }

    /// Whether an item with the identifier of `other` is listed.
    pub fn has_item(&self, other: &Item) -> (r: bool)
        ensures
            r == ids_of(self.items@).contains(other.identifier@),
    {
        let mut i: usize = 0;
        while i < self.items.len()
            invariant
                i <= self.items.len(),
                forall|k: int| 0 <= k < i ==> self.items@[k].identifier@ != other.identifier@,
            decreases self.items.len() - i,
        {
            if self.items[i].identifier == other.identifier {
                assert(ids_of(self.items@)[i as int] == other.identifier@);
                return true;
            }
            i = i + 1;
        }
        assert forall|k: int| 0 <= k < ids_of(self.items@).len() implies ids_of(self.items@)[k]
            != other.identifier@ by {
            assert(ids_of(self.items@)[k] == self.items@[k].identifier@);
        }
        false
    }

    /// Adds each of `items` whose identifier is not listed yet, in order.
    pub fn add(&mut self, items: &Vec<Item>)
        ensures
            ids_of(final(self).items@) == ids_after_add(ids_of(old(self).items@), ids_of(items@)),
            final(self).items@.take(old(self).items@.len() as int) == old(self).items@,
            forall|k: int|
                old(self).items@.len() <= k < final(self).items@.len() ==> exists|j: int|
                    0 <= j < items@.len() && same_item(#[trigger] final(self).items@[k], items@[j]),
    {
        let ghost start = self.items@;
        for i in 0..items.len()
            invariant
                ids_of(self.items@) == ids_after_add(ids_of(start), ids_of(items@.take(i as int))),
                self.items@.take(start.len() as int) == start,
                start.len() <= self.items@.len(),
                forall|k: int|
                    start.len() <= k < self.items@.len() ==> exists|j: int|
                        0 <= j < items@.len() && same_item(#[trigger] self.items@[k], items@[j]),
        {
            let ghost before = self.items@;
            assert(ids_of(items@.take(i as int + 1)).drop_last() =~= ids_of(items@.take(i as int)));
            assert(ids_of(items@.take(i as int + 1)).last() == items@[i as int].identifier@);
            if !self.has_item(&items[i]) {
                let copy = items[i].duplicate();
                self.items.push(copy);
                assert(ids_of(self.items@) =~= ids_of(before).push(items@[i as int].identifier@));
                assert(self.items@.take(start.len() as int) =~= before.take(start.len() as int));
                assert(same_item(self.items@[before.len() as int], items@[i as int]));
            }
        }
        assert(items@.take(items@.len() as int) =~= items@);
    }

    /// The first item whose modification time comes last: the listing
    /// must not be empty.
    pub fn get_last(&self) -> (r: &Item)
        requires
            self.items.len() > 0,
        ensures
            exists|k: int|
                0 <= k < self.items@.len() && *r == self.items@[k] && forall|j: int|
                    0 <= j < k ==> text_after(r.mtime@, #[trigger] self.items@[j].mtime@),
            forall|j: int| 0 <= j < self.items@.len() ==> !text_after(#[trigger] self.items@[j].mtime@, r.mtime@),
    {
        let mut last: usize = 0;
        for i in 0..self.items.len()
            invariant
                self.items.len() > 0,
                last < self.items.len(),
                last <= i,
                forall|j: int| 0 <= j < i ==> !text_after(#[trigger] self.items@[j].mtime@, self.items@[last as int].mtime@),
                forall|j: int| 0 <= j < last ==> text_after(self.items@[last as int].mtime@, #[trigger] self.items@[j].mtime@),
        {
            let ghost prev = last;
            if after(self.items[i].mtime.as_str(), self.items[last].mtime.as_str()) {
                last = i;
                proof {
                    let c = self.items@[i as int].mtime@;
                    let l = self.items@[prev as int].mtime@;
                    lemma_text_after_irreflexive(c);
                    assert forall|j: int| 0 <= j < i + 1 implies !text_after(
                        #[trigger] self.items@[j].mtime@,
                        c,
                    ) by {
                        if j < i && text_after(self.items@[j].mtime@, c) {
                            lemma_text_after_trans(self.items@[j].mtime@, c, l);
                        }
                    }
                    assert forall|j: int| 0 <= j < i implies text_after(c, #[trigger] self.items@[j].mtime@) by {
                        let x = self.items@[j].mtime@;
                        if x == l {
                        } else {
                            lemma_text_after_total(x, l);
                            lemma_text_after_trans(c, l, x);
                        }
                    }
                }
            }
        }
        &self.items[last]
    }

    pub fn count(&self) -> (r: usize)
        ensures
            r == self.items.len(),
    {
        self.items.len()
    }
}

} // verus!
