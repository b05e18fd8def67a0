use crate::clock::seconds_since_epoch;
use crate::ident::{is_random_id, random_id};
use crate::item::{Item, ItemId, ItemView};
use std::collections::HashMap;
use vstd::prelude::*;
use vstd::std_specs::iter::IteratorSpec;

verus! {

broadcast use vstd::std_specs::hash::group_hash_axioms;

/// The items of the list, each under its identifier.
///
/// Its view is the map from identifier to item. A map holds a key once, so
/// no identifier stands for two items.
pub struct Store {
    items: HashMap<ItemId, Item>,
}

impl View for Store {
    type V = Map<ItemId, ItemView>;

    closed spec fn view(&self) -> Map<ItemId, ItemView> {
        self.items@.map_values(|item: Item| item@)
    }
}

/// Why an item was not added.
#[derive(Clone, Copy, Debug, PartialEq, Eq, Structural)]
pub enum InsertError {
    /// The system clock stands before the Unix epoch, so the item has no
    /// creation time.
    ClockBeforeEpoch,
    /// The identifier drawn for the item already names another item.
    IdentifierTaken,
}

/// The map `m` with the completion flag of `id` set to `value`; `m` itself
/// where it holds no such item.
pub open spec fn with_completed(m: Map<ItemId, ItemView>, id: ItemId, value: bool) -> Map<
    ItemId,
    ItemView,
> {
    if m.contains_key(id) {
        m.insert(id, ItemView { completed: value, ..m[id] })
    } else {
        m
    }
}

/// What adding an item under the drawn identifier `id` at clock reading
/// `clock` answers: the identifier, or why nothing was added.
pub open spec fn insert_outcome(m: Map<ItemId, ItemView>, id: ItemId, clock: Option<u64>) -> Result<
    ItemId,
    InsertError,
> {
    match clock {
        None => Err(InsertError::ClockBeforeEpoch),
        Some(_) => if m.contains_key(id) {
            Err(InsertError::IdentifierTaken)
        } else {
            Ok(id)
        },
    }
}

/// The map after that attempt: `m` with the new, uncompleted item where the
/// attempt succeeds, `m` itself where it does not.
pub open spec fn after_insert(
    m: Map<ItemId, ItemView>,
    id: ItemId,
    clock: Option<u64>,
    contents: Seq<char>,
) -> Map<ItemId, ItemView> {
    match clock {
        Some(created) if !m.contains_key(id) => m.insert(
            id,
            ItemView { id, created, contents, completed: false },
        ),
        _ => m,
    }
}

/// Whether `a` is shown before `b`: the older item first, and of two items
/// created in the same second the one with the smaller identifier.
pub open spec fn shown_before(m: Map<ItemId, ItemView>, a: ItemId, b: ItemId) -> bool {
    m[a].created < m[b].created || (m[a].created == m[b].created && a < b)
}

/// Whether `ids` lists the identifiers of `m`, each once, in display order.
pub open spec fn is_display_order(m: Map<ItemId, ItemView>, ids: Seq<ItemId>) -> bool {
    &&& forall|id: ItemId| ids.contains(id) <==> m.contains_key(id)
    &&& forall|i: int, j: int| 0 <= i < j < ids.len() ==> shown_before(m, ids[i], ids[j])
}

impl Store {
    /// The empty store.
    pub fn new() -> (store: Store)
        ensures
            store@ == Map::<ItemId, ItemView>::empty(),
    {
        let store = Store { items: HashMap::new() };
        assert(store@ =~= Map::<ItemId, ItemView>::empty());
        store
    }

    /// The number of items.
    pub fn len(&self) -> (n: usize)
        ensures
            n == self@.len(),
    {
        assert(self@.dom() =~= self.items@.dom());
        self.items.len()
    }

    /// Whether the store holds no item.
    pub fn is_empty(&self) -> (empty: bool)
        ensures
            empty == (self@ == Map::<ItemId, ItemView>::empty()),
    {
        let n = self.len();
        proof {
            if n == 0 {
                assert(self@.dom() =~= self.items@.dom());
                assert(self.items@.dom().finite());
                assert(self@.dom() =~= Set::<ItemId>::empty());
                assert(self@ =~= Map::<ItemId, ItemView>::empty());
            }
        }
        n == 0
    }

    /// Whether an item stands under `id`.
    pub fn contains(&self, id: ItemId) -> (found: bool)
        ensures
            found == self@.contains_key(id),
    {
        self.items.contains_key(&id)
    }

    /// The item under `id`, if there is one.
    pub fn get(&self, id: ItemId) -> (found: Option<&Item>)
        ensures
            match found {
                Some(item) => self@.contains_key(id) && item@ == self@[id],
                None => !self@.contains_key(id),
            },
    {
        self.items.get(&id)
    }

    /// Puts a new, uncompleted item under `id`, unless `id` is taken: then
    /// the store stays as it is and the answer is `false`.
    pub fn insert_item(&mut self, id: ItemId, created: u64, contents: String) -> (fresh: bool)
        ensures
            fresh == !old(self)@.contains_key(id),
            fresh ==> final(self)@ == old(self)@.insert(
                id,
                ItemView { id, created, contents: contents@, completed: false },
            ),
            !fresh ==> final(self)@ == old(self)@,
    {
        if self.items.contains_key(&id) {
            false
        } else {
            let item = Item::new(id, created, contents);
            self.items.insert(id, item);
            assert(self@ =~= old(self)@.insert(id, item@));
            true
        }
    }

    /// Adds an item with text `contents` under the drawn identifier `id`,
    /// created at `clock` seconds since the epoch. Without a clock reading,
    /// or where `id` is taken, nothing changes.
    pub fn insert_with(&mut self, id: ItemId, clock: Option<u64>, contents: String) -> (added:
        Result<ItemId, InsertError>)
        ensures
            added == insert_outcome(old(self)@, id, clock),
            final(self)@ == after_insert(old(self)@, id, clock, contents@),
    {
        match clock {
            None => Err(InsertError::ClockBeforeEpoch),
            Some(created) => {
                if self.insert_item(id, created, contents) {
                    Ok(id)
                } else {
                    Err(InsertError::IdentifierTaken)
                }
            },
        }
    }

    /// Adds an uncompleted item with text `contents`, under a freshly drawn
    /// random identifier and with the current time, and returns the
    /// identifier. Where the clock stands before the epoch, or the drawn
    /// identifier is taken, nothing changes.
    pub fn insert(&mut self, contents: String) -> (added: Result<ItemId, InsertError>)
        ensures
            added matches Ok(id) ==> is_random_id(id),
            exists|id: ItemId, clock: Option<u64>|
                added == insert_outcome(old(self)@, id, clock) && final(self)@ == after_insert(
                    old(self)@,
                    id,
                    clock,
                    contents@,
                ),
    {
        let clock = seconds_since_epoch();
        let id = random_id();
        let added = self.insert_with(id, clock, contents);
        assert(added == insert_outcome(old(self)@, id, clock) && self@ == after_insert(
            old(self)@,
            id,
            clock,
            contents@,
        ));
        added
    }

    /// Puts `item` under `key`, in place of what stood there.
    pub fn put(&mut self, key: ItemId, item: Item)
        ensures
            final(self)@ == old(self)@.insert(key, item@),
    {
        self.items.insert(key, item);
        assert(self@ =~= old(self)@.insert(key, item@));
    }

    /// Deletes the item under `id`. Says whether there was one; where there
    /// was none, nothing changes.
    pub fn remove(&mut self, id: ItemId) -> (removed: bool)
        ensures
            removed == old(self)@.contains_key(id),
            final(self)@ == old(self)@.remove(id),
    {
        let gone = self.items.remove(&id);
        assert(self@ =~= old(self)@.remove(id));
        gone.is_some()
    }

    /// Sets the completion flag of the item under `id`. Says whether there
    /// is such an item; where there is none, nothing changes.
    pub fn set_completed(&mut self, id: ItemId, value: bool) -> (found: bool)
        ensures
            found == old(self)@.contains_key(id),
            final(self)@ == with_completed(old(self)@, id, value),
    {
        match self.items.remove(&id) {
            Some(item) => {
                let Item { id: item_id, created, contents, completed: _ } = item;
                let changed = Item { id: item_id, created, contents, completed: value };
                self.items.insert(id, changed);
                assert(self@ =~= with_completed(old(self)@, id, value));
                true
            },
            None => {
                assert(self@ =~= old(self)@);
                false
            },
        }
    }

    /// The creation time of the item under `id`.
    fn created_of(&self, id: ItemId) -> (created: u64)
        requires
            self@.contains_key(id),
        ensures
            created == self@[id].created,
    {
        match self.items.get(&id) {
            Some(item) => item.created,
            None => 0,
        }
    }

    /// Whether the item under `a` is shown before the item under `b`.
    fn precedes(&self, a: ItemId, b: ItemId) -> (before: bool)
        requires
            self@.contains_key(a),
            self@.contains_key(b),
        ensures
            before == shown_before(self@, a, b),
    {
        let ca = self.created_of(a);
        let cb = self.created_of(b);
        ca < cb || (ca == cb && a < b)
    }

    /// The identifiers in display order: ascending by creation time, and by
    /// identifier among items created in the same second.
    pub fn sorted_ids(&self) -> (ids: Vec<ItemId>)
        ensures
            is_display_order(self@, ids@),
            forall|i: int, j: int|
                0 <= i <= j < ids@.len() ==> self@[ids@[i]].created <= self@[ids@[j]].created,
    {
        let mut ids: Vec<ItemId> = Vec::new();
        let ghost all: Seq<ItemId> = self.items.keys().remaining().unref();
        assert(all.to_set() == self.items@.dom());
        for key in it: self.items.keys()
            invariant
                it.seq().unref() == all,
                all.to_set() == self.items@.dom(),
                0 <= it.index() <= all.len(),
                forall|j: int| 0 <= j < it.index() ==> ids@.contains(#[trigger] all[j]),
                forall|i: int| 0 <= i < ids@.len() ==> self@.contains_key(#[trigger] ids@[i]),
                forall|i: int, j: int| 0 <= i < j < ids@.len() ==> shown_before(self@, ids@[i], ids@[j]),
        {
            let k = *key;
            proof {
                assert(all[it.index()] == k);
                assert(all.to_set().contains(k));
                assert(self@.contains_key(k));
            }
            self.place(&mut ids, k);
        }
        proof {
            assert forall|id: ItemId| self@.contains_key(id) implies ids@.contains(id) by {
                assert(all.to_set().contains(id));
                let j = choose|j: int| 0 <= j < all.len() && all[j] == id;
                assert(ids@.contains(all[j]));
            }
            assert forall|i: int, j: int| 0 <= i <= j < ids@.len() implies self@[ids@[i]].created
                <= self@[ids@[j]].created by {
                if i < j {
                    assert(shown_before(self@, ids@[i], ids@[j]));
                }
            }
        }
        ids
    }

    /// Puts `k` into the ordered list `ids` at its place, unless it is there.
    fn place(&self, ids: &mut Vec<ItemId>, k: ItemId)
        requires
            self@.contains_key(k),
            forall|i: int| 0 <= i < old(ids)@.len() ==> self@.contains_key(#[trigger] old(ids)@[i]),
            forall|i: int, j: int|
                0 <= i < j < old(ids)@.len() ==> shown_before(self@, old(ids)@[i], old(ids)@[j]),
        ensures
            forall|i: int| 0 <= i < final(ids)@.len() ==> self@.contains_key(#[trigger] final(ids)@[i]),
            forall|i: int, j: int|
                0 <= i < j < final(ids)@.len() ==> shown_before(self@, final(ids)@[i], final(ids)@[j]),
            forall|x: ItemId| final(ids)@.contains(x) <==> (old(ids)@.contains(x) || x == k),
    {
        let mut p: usize = 0;
        while p < ids.len() && self.precedes(ids[p], k)
            invariant
                ids@ == old(ids)@,
                0 <= p <= ids@.len(),
                self@.contains_key(k),
                forall|i: int| 0 <= i < ids@.len() ==> self@.contains_key(#[trigger] ids@[i]),
                forall|i: int| 0 <= i < p ==> shown_before(self@, #[trigger] ids@[i], k),
            decreases ids@.len() - p,
        {
            p += 1;
        }
        if p < ids.len() && ids[p] == k {
            assert(ids@.contains(k));
        } else {
            ids.insert(p, k);
            proof {
                let before = old(ids)@;
                let after = ids@;
                assert(after[p as int] == k);
                assert forall|x: ItemId| after.contains(x) <==> (before.contains(x) || x == k) by {
                    if after.contains(x) {
                        let i = choose|i: int| 0 <= i < after.len() && after[i] == x;
                        if i < p {
                            assert(before[i] == x);
                        } else if i > p {
                            assert(before[i - 1] == x);
                        }
                    }
                    if before.contains(x) {
                        let i = choose|i: int| 0 <= i < before.len() && before[i] == x;
                        if i < p {
                            assert(after[i] == x);
                        } else {
                            assert(after[i + 1] == x);
                        }
                    }
                }
                assert forall|i: int, j: int| 0 <= i < j < after.len() implies shown_before(
                    self@,
                    after[i],
                    after[j],
                ) by {
                    if j < p {
                        assert(after[i] == before[i] && after[j] == before[j]);
                    } else if j == p {
                        assert(after[i] == before[i]);
                    } else if i < p {
                        assert(after[i] == before[i] && after[j] == before[j - 1]);
                    } else if i == p {
                        assert(after[j] == before[j - 1]);
                        assert(!shown_before(self@, before[p as int], k));
                        if j - 1 > p {
                            assert(shown_before(self@, before[p as int], before[j - 1]));
                        }
                    } else {
                        assert(after[i] == before[i - 1] && after[j] == before[j - 1]);
                    }
                }
            }
        }
    }
}

} // verus!
