use crate::item::{Item, ItemId, ItemView};
use crate::store::{is_display_order, Store};
use vstd::prelude::*;

verus! {

/// The entries of a persisted document as plain values: each key with the
/// view of the item under it.
pub open spec fn entry_views(entries: Seq<(ItemId, Item)>) -> Seq<(ItemId, ItemView)> {
    entries.map_values(|entry: (ItemId, Item)| (entry.0, entry.1@))
}

/// The keys of the entries, in their order.
pub open spec fn entry_keys(entries: Seq<(ItemId, ItemView)>) -> Seq<ItemId> {
    entries.map_values(|entry: (ItemId, ItemView)| entry.0)
}

/// The map that a document's entries stand for: each key with its item, and
/// where a key occurs more than once, the last entry with it.
pub open spec fn store_of(entries: Seq<(ItemId, ItemView)>) -> Map<ItemId, ItemView>
    decreases entries.len(),
{
    if entries.len() == 0 {
        Map::empty()
    } else {
        store_of(entries.drop_last()).insert(entries.last().0, entries.last().1)
    }
}

/// Whether `entries` lists the map `m`: its keys in display order, each with
/// the item that `m` holds under it.
pub open spec fn is_listing(m: Map<ItemId, ItemView>, entries: Seq<(ItemId, ItemView)>) -> bool {
    &&& is_display_order(m, entry_keys(entries))
    &&& forall|i: int| 0 <= i < entries.len() ==> (#[trigger] entries[i]).1 == m[entries[i].0]
}

/// The store read from a document: the map of its entries, or the empty map
/// where there was no document or it could not be decoded.
pub open spec fn loaded(decoded: Option<Seq<(ItemId, ItemView)>>) -> Map<ItemId, ItemView> {
    match decoded {
        Some(entries) => store_of(entries),
        None => Map::empty(),
    }
}

impl Store {
    /// The whole store as the entries of a document, in display order.
    pub fn entries(&self) -> (entries: Vec<(ItemId, Item)>)
        ensures
            is_listing(self@, entry_views(entries@)),
    {
        let ids = self.sorted_ids();
        let mut entries: Vec<(ItemId, Item)> = Vec::new();
        let mut i: usize = 0;
        while i < ids.len()
            invariant
                0 <= i <= ids@.len(),
                is_display_order(self@, ids@),
                entries@.len() == i,
                forall|j: int| 0 <= j < i ==> (#[trigger] entries@[j]).0 == ids@[j],
                forall|j: int| 0 <= j < i ==> (#[trigger] entries@[j]).1@ == self@[ids@[j]],
            decreases ids@.len() - i,
        {
            let id = ids[i];
            assert(ids@.contains(id));
            match self.get(id) {
                Some(item) => {
                    entries.push((id, item.duplicate()));
                },
                None => {},
            }
            i += 1;
        }
        proof {
            assert(entry_keys(entry_views(entries@)) =~= ids@);
        }
        entries
    }

    /// The store that the entries of a document stand for.
    pub fn from_entries(entries: &Vec<(ItemId, Item)>) -> (store: Store)
        ensures
            store@ == store_of(entry_views(entries@)),
    {
        let mut store = Store::new();
        let ghost all = entry_views(entries@);
        let mut i: usize = 0;
        while i < entries.len()
            invariant
                0 <= i <= entries@.len(),
                all == entry_views(entries@),
                store@ == store_of(all.take(i as int)),
            decreases entries@.len() - i,
        {
            let key = entries[i].0;
            let item = entries[i].1.duplicate();
            proof {
                let next = all.take(i + 1);
                assert(next.drop_last() =~= all.take(i as int));
                assert(next.last() == (key, item@));
            }
            store.put(key, item);
            i += 1;
        }
        proof {
            assert(all.take(i as int) =~= all);
        }
        store
    }

    /// The store at start: that of the decoded document, or the empty store
    /// where the document was missing or could not be decoded.
    pub fn load(decoded: Option<Vec<(ItemId, Item)>>) -> (store: Store)
        ensures
            store@ == loaded(
                match decoded {
                    Some(entries) => Some(entry_views(entries@)),
                    None => None,
                },
            ),
    {
        match decoded {
            Some(entries) => Store::from_entries(&entries),
            None => Store::new(),
        }
    }
}

/// Every key of the entries is a key of their map.
pub proof fn lemma_store_of_has(entries: Seq<(ItemId, ItemView)>, i: int)
    requires
        0 <= i < entries.len(),
    ensures
        store_of(entries).contains_key(entries[i].0),
    decreases entries.len(),
{
    if i < entries.len() - 1 {
        lemma_store_of_has(entries.drop_last(), i);
    }
}

/// Where each entry holds what `m` holds under its key, the map of the
/// entries agrees with `m` on every key it has.
pub proof fn lemma_store_of_within(m: Map<ItemId, ItemView>, entries: Seq<(ItemId, ItemView)>)
    requires
        forall|i: int|
            0 <= i < entries.len() ==> m.contains_key((#[trigger] entries[i]).0) && entries[i].1
                == m[entries[i].0],
    ensures
        forall|k: ItemId|
            (#[trigger] store_of(entries).contains_key(k)) ==> m.contains_key(k) && store_of(
                entries,
            )[k] == m[k],
    decreases entries.len(),
{
    if entries.len() > 0 {
        let front = entries.drop_last();
        assert forall|i: int| 0 <= i < front.len() implies m.contains_key(
            (#[trigger] front[i]).0,
        ) && front[i].1 == m[front[i].0] by {
            assert(front[i] == entries[i]);
        }
        lemma_store_of_within(m, front);
        let last = entries[entries.len() - 1];
        assert(entries.last() == last);
        assert forall|k: ItemId| (#[trigger] store_of(entries).contains_key(k)) implies m.contains_key(
            k,
        ) && store_of(entries)[k] == m[k] by {
            if k != last.0 {
                assert(store_of(front).contains_key(k));
            }
        }
    }
}

/// Saving and loading again gives the same store: the map of a listing of
/// `m` is `m`, key for key and field for field.
pub proof fn lemma_round_trip(m: Map<ItemId, ItemView>, entries: Seq<(ItemId, ItemView)>)
    requires
        is_listing(m, entries),
    ensures
        loaded(Some(entries)) == m,
{
    let keys = entry_keys(entries);
    assert forall|i: int| 0 <= i < entries.len() implies m.contains_key((#[trigger] entries[i]).0)
        && entries[i].1 == m[entries[i].0] by {
        assert(keys[i] == entries[i].0);
        assert(keys.contains(entries[i].0));
    }
    lemma_store_of_within(m, entries);
    assert forall|k: ItemId| m.contains_key(k) implies store_of(entries).contains_key(k) by {
        assert(keys.contains(k));
        let i = choose|i: int| 0 <= i < keys.len() && keys[i] == k;
        lemma_store_of_has(entries, i);
    }
    assert(store_of(entries) =~= m);
}

} // verus!
