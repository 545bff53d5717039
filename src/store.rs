//! The item table: notes keyed by a unique id that the store assigns.
use crate::models::{Item, NewItem};
use crate::order::{lemma_title_le_total, lemma_title_le_transitive, title_le, title_le_exec};
use vstd::prelude::*;
use vstd::seq_lib::{to_multiset_build, to_multiset_insert};

verus! {

/// Errors of the item table.
#[derive(Debug, Clone, Copy, PartialEq, Eq, Structural)]
pub enum StoreError {
    /// No stored item has the id asked for.
    NotFound,
    /// An item with that id is already stored.
    DuplicateId,
    /// Every id up to `i32::MAX` has been handed out.
    IdsExhausted,
}

/// No two items share an id.
pub open spec fn ids_unique(s: Seq<Item>) -> bool {
    forall|i: int, j: int| 0 <= i < s.len() && 0 <= j < s.len() && i != j ==> s[i].id != s[j].id
}

/// The items are in title order.
pub open spec fn sorted_by_title(s: Seq<Item>) -> bool {
    forall|i: int, j: int| 0 <= i < j < s.len() ==> title_le(s[i].title@, s[j].title@)
}

/// Position `k` is where an item titled `title` goes in `s`: after every
/// item whose title sorts at or before it, and before every other.
pub open spec fn place_for(s: Seq<Item>, title: Seq<char>, k: int) -> bool {
    &&& 0 <= k <= s.len()
    &&& forall|j: int| 0 <= j < k ==> title_le(#[trigger] s[j].title@, title)
    &&& forall|j: int| k <= j < s.len() ==> !title_le(#[trigger] s[j].title@, title)
}

/// Some item has the id.
pub open spec fn has_id(s: Seq<Item>, id: i32) -> bool {
    exists|i: int| 0 <= i < s.len() && s[i].id == id
}

/// What an update with `item` stores over `stored`: the title, contents and
/// modification time of `item`, and the date `stored` was added, which never
/// changes.
pub open spec fn updated(stored: Item, item: Item) -> Item {
    Item {
        id: stored.id,
        title: item.title,
        contents: item.contents,
        date_added: stored.date_added,
        date_last_modified: item.date_last_modified,
    }
}

/// Item `i` is the first, in table order, with this title.
pub open spec fn first_titled(s: Seq<Item>, title: Seq<char>, i: int) -> bool {
    &&& 0 <= i < s.len()
    &&& s[i].title@ == title
    &&& forall|j: int| 0 <= j < i ==> s[j].title@ != title
}

/// The two optional texts are both absent, or both present and equal.
pub open spec fn same_text(a: Option<String>, b: Option<String>) -> bool {
    match (a, b) {
        (None, None) => true,
        (Some(x), Some(y)) => x@ == y@,
        _ => false,
    }
}

/// The two items hold the same id, title, contents and dates.
pub open spec fn same_row(a: Item, b: Item) -> bool {
    &&& a.id == b.id
    &&& a.title@ == b.title@
    &&& same_text(a.contents, b.contents)
    &&& a.date_added == b.date_added
    &&& a.date_last_modified == b.date_last_modified
}

/// Position by position, the two tables hold the same items.
pub open spec fn same_rows(a: Seq<Item>, b: Seq<Item>) -> bool {
    a.len() == b.len() && forall|i: int| 0 <= i < a.len() ==> same_row(#[trigger] a[i], b[i])
}

/// Position by position, the two tables hold items of the same ids and
/// titles.
pub open spec fn same_keys(a: Seq<Item>, b: Seq<Item>) -> bool {
    a.len() == b.len() && forall|i: int| 0 <= i < a.len() ==> a[i].id == b[i].id && a[i].title@ == b[i].title@
}

/// The items, kept in title order. An item stored or renamed goes after
/// every item whose title sorts at or before its own, so items of equal
/// titles keep the order in which they took that title.
pub struct ItemStore {
    items: Vec<Item>,
    next_id: i64,
}

impl View for ItemStore {
    type V = Seq<Item>;

    closed spec fn view(&self) -> Seq<Item> {
        self.items@
    }
}

impl ItemStore {
    /// Ids are unique and each is below the next id to hand out; the items
    /// are in title order.
    pub closed spec fn wf(&self) -> bool {
        &&& ids_unique(self.items@)
        &&& sorted_by_title(self.items@)
        &&& 1 <= self.next_id <= i32::MAX as i64 + 1
        &&& forall|i: int| 0 <= i < self.items@.len() ==> self.items@[i].id < self.next_id
    }

    /// Some id is still free to hand to a new item: no id up to `i32::MAX`
    /// has been given out or loaded yet.
    pub closed spec fn ids_left(&self) -> bool {
        self.next_id <= i32::MAX as i64
    }

    /// A well-formed table is in title order and no two items share an id.
    pub proof fn lemma_wf(&self)
        requires
            self.wf(),
        ensures
            ids_unique(self@),
            sorted_by_title(self@),
    {
    }

    /// The position at which an item titled `title` is stored: after every
    /// item whose title sorts at or before it.
    fn position_for(&self, title: &str) -> (r: usize)
        requires
            sorted_by_title(self.items@),
        ensures
            r <= self.items@.len(),
            forall|j: int| 0 <= j < r ==> title_le(#[trigger] self.items@[j].title@, title@),
            forall|j: int| r <= j < self.items@.len() ==> !title_le(#[trigger] self.items@[j].title@, title@),
    {
        let mut i: usize = 0;
        while i < self.items.len()
            invariant
                i <= self.items@.len(),
                sorted_by_title(self.items@),
                forall|j: int| 0 <= j < i ==> title_le(#[trigger] self.items@[j].title@, title@),
            decreases self.items@.len() - i,
        {
            if !title_le_exec(self.items[i].title.as_str(), title) {
                assert forall|j: int| i <= j < self.items@.len() implies !title_le(
                    #[trigger] self.items@[j].title@,
                    title@,
                ) by {
                    if j > i && title_le(self.items@[j].title@, title@) {
                        assert(title_le(self.items@[i as int].title@, self.items@[j].title@));
                        lemma_title_le_transitive(self.items@[i as int].title@, self.items@[j].title@, title@);
                    }
                }
                return i;
            }
            i += 1;
        }
        i
    }

    /// Stores `item` at its place in title order.
    fn insert_in_order(&mut self, item: Item)
        requires
            sorted_by_title(old(self).items@),
        ensures
            sorted_by_title(final(self).items@),
            final(self).next_id == old(self).next_id,
            exists|k: int| place_for(old(self).items@, item.title@, k) && final(self).items@ == old(self).items@.insert(k, item),
    {
        let k = self.position_for(item.title.as_str());
        let ghost t = item.title@;
        self.items.insert(k, item);
        proof {
            let s = self.items@;
            let o = old(self).items@;
            assert forall|i: int, j: int| 0 <= i < j < s.len() implies title_le(s[i].title@, s[j].title@) by {
                if i == k && j > k {
                    assert(!title_le(o[j - 1].title@, t));
                    lemma_title_le_total(o[j - 1].title@, t);
                } else if j == k {
                    assert(title_le(o[i].title@, t));
                } else if i < k && j > k {
                    assert(title_le(o[i].title@, o[j - 1].title@));
                } else if i > k {
                    assert(title_le(o[i - 1].title@, o[j - 1].title@));
                }
            }
        }
    }

    /// An empty table.
    pub fn new() -> (r: ItemStore)
        ensures
            r.wf(),
            r.ids_left(),
            r@.len() == 0,
    {
        ItemStore { items: Vec::new(), next_id: 1 }
    }

    /// A table of the given rows, each under the id it carries; fails on
    /// the first id already taken.
    pub fn load(rows: Vec<Item>) -> (r: Result<ItemStore, StoreError>)
        ensures
            match r {
                Ok(store) => store.wf() && store@.len() == rows@.len() && ids_unique(rows@)
                    && store@.to_multiset() == rows@.to_multiset(),
                Err(e) => e == StoreError::DuplicateId && !ids_unique(rows@),
            },
    {
        let mut store = ItemStore::new();
        let mut i: usize = 0;
        assert(rows@.take(0) =~= store@);
        while i < rows.len()
            invariant
                i <= rows@.len(),
                store.wf(),
                store@.len() == i,
                ids_unique(rows@.take(i as int)),
                store@.to_multiset() == rows@.take(i as int).to_multiset(),
                forall|id: i32| has_id(store@, id) <==> has_id(rows@.take(i as int), id),
            decreases rows@.len() - i,
        {
            let row = rows[i].clone();
            let ghost before = store@;
            let ghost prefix = rows@.take(i as int);
            assert(rows@.take(i + 1) =~= prefix.push(row));
            match store.restore(row) {
                Ok(()) => {
                    proof {
                        let k = choose|k: int| place_for(before, row.title@, k) && store@ == before.insert(k, row);
                        to_multiset_insert(before, k, row);
                        to_multiset_build(prefix, row);
                        assert forall|id: i32| has_id(store@, id) <==> has_id(rows@.take(i + 1), id) by {
                            if has_id(store@, id) {
                                let j = choose|j: int| 0 <= j < store@.len() && store@[j].id == id;
                                if j == k {
                                    assert(rows@.take(i + 1)[i as int].id == id);
                                } else {
                                    if j < k {
                                        assert(before[j].id == id);
                                    } else {
                                        assert(before[j - 1].id == id);
                                    }
                                    assert(has_id(before, id));
                                    assert(has_id(prefix, id));
                                    let m = choose|m: int| 0 <= m < prefix.len() && prefix[m].id == id;
                                    assert(rows@.take(i + 1)[m].id == id);
                                }
                            }
                            if has_id(rows@.take(i + 1), id) {
                                let j = choose|j: int| 0 <= j < i + 1 && (#[trigger] rows@.take(i + 1)[j]).id == id;
                                if j < i {
                                    assert(prefix[j].id == id);
                                    assert(has_id(prefix, id));
                                    assert(has_id(before, id));
                                    let m = choose|m: int| 0 <= m < before.len() && before[m].id == id;
                                    if m < k {
                                        assert(store@[m].id == id);
                                    } else {
                                        assert(store@[m + 1].id == id);
                                    }
                                } else {
                                    assert(rows@.take(i + 1)[j] == row);
                                    assert(store@[k] == row);
                                }
                            }
                        }
                    }
                },
                Err(e) => {
                    proof {
                        let j = choose|j: int| 0 <= j < prefix.len() && prefix[j].id == row.id;
                        assert(rows@[j].id == rows@[i as int].id);
                    }
                    return Err(e);
                },
            }
            i += 1;
        }
        assert(rows@.take(rows@.len() as int) =~= rows@);
        Ok(store)
    }

    /// The number of stored items.
    pub fn len(&self) -> (r: usize)
        ensures
            r == self@.len(),
    {
        self.items.len()
    }

    /// The index of the item with this id.
    fn position_of_id(&self, id: i32) -> (r: Option<usize>)
        requires
            self.wf(),
        ensures
            match r {
                Some(i) => i < self@.len() && self@[i as int].id == id,
                None => !has_id(self@, id),
            },
    {
        let mut i: usize = 0;
        while i < self.items.len()
            invariant
                i <= self.items@.len(),
                forall|j: int| 0 <= j < i ==> self.items@[j].id != id,
            decreases self.items@.len() - i,
        {
            if self.items[i].id == id {
                return Some(i);
            }
            i += 1;
        }
        None
    }

    /// The first `limit` items in title order, or all of them.
    pub fn find_all(&self, limit: Option<usize>) -> (r: Vec<Item>)
        requires
            self.wf(),
        ensures
            sorted_by_title(r@),
            r@ == match limit {
                Some(l) => if l < self@.len() { self@.take(l as int) } else { self@ },
                None => self@,
            },
    {
        let n: usize = match limit {
            Some(l) => if l < self.items.len() { l } else { self.items.len() },
            None => self.items.len(),
        };
        let mut r: Vec<Item> = Vec::new();
        let mut i: usize = 0;
        while i < n
            invariant
                n <= self.items@.len(),
                i <= n,
                r@ == self.items@.take(i as int),
            decreases n - i,
        {
            r.push(self.items[i].clone());
            i += 1;
            assert(r@ =~= self.items@.take(i as int));
        }
        assert(self.items@.take(self.items@.len() as int) =~= self.items@);
        r
    }

    /// The item with this id.
    pub fn find_by_id(&self, id: i32) -> (r: Option<Item>)
        requires
            self.wf(),
        ensures
            match r {
                Some(item) => item.id == id && self@.contains(item),
                None => !has_id(self@, id),
            },
    {
        match self.position_of_id(id) {
            Some(i) => Some(self.items[i].clone()),
            None => None,
        }
    }

    /// The first item, in table order, with this title.
    pub fn find_by_title(&self, title: &str) -> (r: Option<Item>)
        ensures
            match r {
                Some(item) => exists|i: int| first_titled(self@, title@, i) && self@[i] == item,
                None => forall|j: int| 0 <= j < self@.len() ==> self@[j].title@ != title@,
            },
    {
        let wanted = title.to_owned();
        let mut i: usize = 0;
        while i < self.items.len()
            invariant
                i <= self.items@.len(),
                wanted@ == title@,
                forall|j: int| 0 <= j < i ==> self.items@[j].title@ != title@,
            decreases self.items@.len() - i,
        {
            if self.items[i].title == wanted {
                return Some(self.items[i].clone());
            }
            i += 1;
        }
        None
    }

    /// Stores `new_item` under the next free id and returns the stored item.
    pub fn insert(&mut self, new_item: &NewItem) -> (r: Result<Item, StoreError>)
        requires
            old(self).wf(),
        ensures
            final(self).wf(),
            r is Ok <==> old(self).ids_left(),
            match r {
                Ok(item) => {
                    &&& !has_id(old(self)@, item.id)
                    &&& item.title == new_item.title
                    &&& item.contents == new_item.contents
                    &&& item.date_added == new_item.date_added
                    &&& item.date_last_modified == new_item.date_last_modified
                    &&& exists|k: int| place_for(old(self)@, item.title@, k) && final(self)@ == old(self)@.insert(k, item)
                },
                Err(e) => e == StoreError::IdsExhausted && final(self)@ == old(self)@,
            },
    {
        if self.next_id > i32::MAX as i64 {
            return Err(StoreError::IdsExhausted);
        }
        let item = Item {
            id: self.next_id as i32,
            title: new_item.title.clone(),
            contents: crate::models::copy_text(&new_item.contents),
            date_added: new_item.date_added,
            date_last_modified: new_item.date_last_modified,
        };
        self.insert_in_order(item.clone());
        self.next_id = self.next_id + 1;
        Ok(item)
    }

    /// Stores `item` with the id it already carries, as when the table is
    /// loaded from disk.
    pub fn restore(&mut self, item: Item) -> (r: Result<(), StoreError>)
        requires
            old(self).wf(),
        ensures
            final(self).wf(),
            match r {
                Ok(()) => !has_id(old(self)@, item.id) && exists|k: int|
                    place_for(old(self)@, item.title@, k) && final(self)@ == old(self)@.insert(k, item),
                Err(e) => e == StoreError::DuplicateId && has_id(old(self)@, item.id)
                    && final(self)@ == old(self)@,
            },
    {
        if self.position_of_id(item.id).is_some() {
            return Err(StoreError::DuplicateId);
        }
        let id = item.id;
        self.insert_in_order(item);
        if id as i64 >= self.next_id {
            self.next_id = id as i64 + 1;
        }
        Ok(())
    }

    /// Does the table hold exactly `rows`, position by position?
    pub fn holds_rows(&self, rows: &Vec<Item>) -> (r: bool)
        ensures
            r == same_rows(self@, rows@),
    {
        if self.items.len() != rows.len() {
            return false;
        }
        let mut i: usize = 0;
        while i < rows.len()
            invariant
                self.items@.len() == rows@.len(),
                i <= rows@.len(),
                forall|j: int| 0 <= j < i ==> same_row(#[trigger] self.items@[j], rows@[j]),
            decreases rows@.len() - i,
        {
            let a = &self.items[i];
            let b = &rows[i];
            let same_contents = match (&a.contents, &b.contents) {
                (None, None) => true,
                (Some(x), Some(y)) => *x == *y,
                _ => false,
            };
            if a.id != b.id || a.title != b.title || !same_contents || a.date_added != b.date_added
                || a.date_last_modified != b.date_last_modified {
                return false;
            }
            i += 1;
        }
        true
    }

    /// Do `items`, position by position, carry the ids and titles stored?
    pub fn has_same_keys(&self, items: &Vec<Item>) -> (r: bool)
        ensures
            r == same_keys(self@, items@),
    {
        if self.items.len() != items.len() {
            return false;
        }
        let mut i: usize = 0;
        while i < items.len()
            invariant
                self.items@.len() == items@.len(),
                i <= items@.len(),
                forall|j: int| 0 <= j < i ==> self.items@[j].id == items@[j].id && self.items@[j].title@ == items@[j].title@,
            decreases items@.len() - i,
        {
            if self.items[i].id != items[i].id || self.items[i].title != items[i].title {
                return false;
            }
            i += 1;
        }
        true
    }

    /// Puts `items` in place of the whole table; position by position they
    /// carry the ids and titles already stored.
    pub fn replace_all(&mut self, items: Vec<Item>)
        requires
            old(self).wf(),
            same_keys(old(self)@, items@),
        ensures
            final(self).wf(),
            final(self)@ == items@,
    {
        self.items = items;
    }

    /// Overwrites the title, contents and modification time of the stored
    /// item that has `item`'s id; the date it was added is kept. An item
    /// that keeps its title keeps its place; one whose title changes moves to
    /// its place in title order.
    pub fn update(&mut self, item: &Item) -> (r: Result<(), StoreError>)
        requires
            old(self).wf(),
        ensures
            final(self).wf(),
            r is Ok <==> has_id(old(self)@, item.id),
            match r {
                Ok(()) => exists|i: int| {
                    &&& 0 <= i < old(self)@.len()
                    &&& old(self)@[i].id == item.id
                    &&& if old(self)@[i].title@ == item.title@ {
                        final(self)@ == old(self)@.update(i, updated(old(self)@[i], *item))
                    } else {
                        exists|k: int| place_for(old(self)@.remove(i), item.title@, k)
                            && final(self)@ == old(self)@.remove(i).insert(k, updated(old(self)@[i], *item))
                    }
                },
                Err(e) => e == StoreError::NotFound && final(self)@ == old(self)@,
            },
    {
        match self.position_of_id(item.id) {
            None => Err(StoreError::NotFound),
            Some(i) => {
                let stored = Item {
                    id: self.items[i].id,
                    title: item.title.clone(),
                    contents: crate::models::copy_text(&item.contents),
                    date_added: self.items[i].date_added,
                    date_last_modified: item.date_last_modified,
                };
                if self.items[i].title == item.title {
                    self.items.set(i, stored);
                    assert(forall|j: int| 0 <= j < self.items@.len() ==>
                        #[trigger] self.items@[j].title@ == old(self).items@[j].title@);
                } else {
                    self.items.remove(i);
                    assert(forall|k: int| 0 <= k < self.items@.len() ==>
                        self.items@[k] == old(self).items@[if k < i { k } else { k + 1 }]);
                    self.insert_in_order(stored);
                }
                Ok(())
            },
        }
    }

    /// Removes the item with this id.
    pub fn delete(&mut self, id: i32) -> (r: Result<(), StoreError>)
        requires
            old(self).wf(),
        ensures
            final(self).wf(),
            match r {
                Ok(()) => exists|i: int|
                    0 <= i < old(self)@.len() && old(self)@[i].id == id
                        && final(self)@ == old(self)@.remove(i),
                Err(e) => e == StoreError::NotFound && !has_id(old(self)@, id)
                    && final(self)@ == old(self)@,
            },
    {
        match self.position_of_id(id) {
            None => Err(StoreError::NotFound),
            Some(i) => {
                self.items.remove(i);
                assert(forall|k: int| 0 <= k < self.items@.len() ==>
                    self.items@[k] == old(self).items@[if k < i { k } else { k + 1 }]);
                Ok(())
            },
        }
    }
}

} // verus!
