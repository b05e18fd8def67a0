use crate::item::{ItemId, ItemView};
use crate::store::{after_insert, is_display_order, shown_before, with_completed};
use vstd::prelude::*;

verus! {

/// The display order is non-decreasing in creation time.
pub proof fn lemma_display_order_ascends(m: Map<ItemId, ItemView>, ids: Seq<ItemId>, i: int, j: int)
    requires
        is_display_order(m, ids),
        0 <= i <= j < ids.len(),
    ensures
        m[ids[i]].created <= m[ids[j]].created,
{
    if i < j {
        assert(shown_before(m, ids[i], ids[j]));
    }
}

/// A map has one display order: two sequences that both list its keys in
/// display order are the same sequence. So ordering the keys again, from
/// whatever arrangement, changes nothing.
pub proof fn lemma_display_order_unique(m: Map<ItemId, ItemView>, a: Seq<ItemId>, b: Seq<ItemId>)
    requires
        is_display_order(m, a),
        is_display_order(m, b),
    ensures
        a == b,
    decreases a.len(),
{
    if a.len() == 0 {
        if b.len() > 0 {
            assert(b.contains(b[0]));
            assert(a.contains(b[0]));
        }
        assert(a =~= b);
    } else if b.len() == 0 {
        assert(a.contains(a[0]));
        assert(b.contains(a[0]));
    } else {
        assert(a.contains(a[0]));
        assert(b.contains(a[0]));
        assert(b.contains(b[0]));
        assert(a.contains(b[0]));
        let j = choose|j: int| 0 <= j < b.len() && b[j] == a[0];
        let i = choose|i: int| 0 <= i < a.len() && a[i] == b[0];
        if j > 0 {
            assert(shown_before(m, b[0], b[j]));
        }
        if i > 0 {
            assert(shown_before(m, a[0], a[i]));
        }
        assert(a[0] == b[0]);
        let rest = m.remove(a[0]);
        lemma_display_order_tail(m, a);
        lemma_display_order_tail(m, b);
        lemma_display_order_unique(rest, a.drop_first(), b.drop_first());
        assert forall|k: int| 0 <= k < a.len() implies a[k] == b[k] by {
            if k > 0 {
                assert(a[k] == a.drop_first()[k - 1]);
                assert(b[k] == b.drop_first()[k - 1]);
            }
        }
        assert(a.len() == a.drop_first().len() + 1);
        assert(b.len() == b.drop_first().len() + 1);
        assert(a =~= b);
    }
}

/// Without its first key, a display order is the display order of the map
/// without that key.
proof fn lemma_display_order_tail(m: Map<ItemId, ItemView>, ids: Seq<ItemId>)
    requires
        is_display_order(m, ids),
        ids.len() > 0,
    ensures
        is_display_order(m.remove(ids[0]), ids.drop_first()),
{
    let rest = m.remove(ids[0]);
    let tail = ids.drop_first();
    assert forall|id: ItemId| tail.contains(id) <==> rest.contains_key(id) by {
        if tail.contains(id) {
            let t = choose|t: int| 0 <= t < tail.len() && tail[t] == id;
            assert(ids[t + 1] == id);
            assert(ids.contains(id));
            assert(shown_before(m, ids[0], ids[t + 1]));
        }
        if rest.contains_key(id) {
            assert(ids.contains(id));
            let t = choose|t: int| 0 <= t < ids.len() && ids[t] == id;
            assert(tail[t - 1] == id);
        }
    }
    assert forall|i: int, j: int| 0 <= i < j < tail.len() implies shown_before(
        rest,
        tail[i],
        tail[j],
    ) by {
        assert(shown_before(m, ids[0], ids[i + 1]));
        assert(shown_before(m, ids[0], ids[j + 1]));
        assert(shown_before(m, ids[i + 1], ids[j + 1]));
    }
}

/// Setting the completion flag twice to the same value leaves what setting
/// it once leaves.
pub proof fn lemma_set_completed_idempotent(m: Map<ItemId, ItemView>, id: ItemId, value: bool)
    ensures
        with_completed(with_completed(m, id, value), id, value) == with_completed(m, id, value),
{
    assert(with_completed(with_completed(m, id, value), id, value) =~= with_completed(
        m,
        id,
        value,
    ));
}

/// Setting the completion flag moves no item: the display order stays.
pub proof fn lemma_set_completed_keeps_order(
    m: Map<ItemId, ItemView>,
    id: ItemId,
    value: bool,
    ids: Seq<ItemId>,
)
    requires
        is_display_order(m, ids),
    ensures
        is_display_order(with_completed(m, id, value), ids),
{
    let after = with_completed(m, id, value);
    assert forall|i: int, j: int| 0 <= i < j < ids.len() implies shown_before(
        after,
        ids[i],
        ids[j],
    ) by {
        assert(shown_before(m, ids[i], ids[j]));
    }
}

/// A deleted item is not shown: the display order of the map without `id`
/// does not hold `id`.
pub proof fn lemma_removed_not_shown(m: Map<ItemId, ItemView>, id: ItemId, ids: Seq<ItemId>)
    requires
        is_display_order(m.remove(id), ids),
    ensures
        !ids.contains(id),
{
}

/// Whether every item of `m` stands under its own identifier.
pub open spec fn is_keyed_by_id(m: Map<ItemId, ItemView>) -> bool {
    forall|k: ItemId| m.contains_key(k) ==> (#[trigger] m[k]).id == k
}

/// Adding, toggling and deleting keep every item under its own identifier.
pub proof fn lemma_keyed_by_id_kept(
    m: Map<ItemId, ItemView>,
    id: ItemId,
    clock: Option<u64>,
    contents: Seq<char>,
    value: bool,
)
    requires
        is_keyed_by_id(m),
    ensures
        is_keyed_by_id(after_insert(m, id, clock, contents)),
        is_keyed_by_id(with_completed(m, id, value)),
        is_keyed_by_id(m.remove(id)),
{
    let added = after_insert(m, id, clock, contents);
    assert forall|k: ItemId| added.contains_key(k) implies (#[trigger] added[k]).id == k by {
        if k != id {
            assert(m[k].id == k);
        }
    }
    let set = with_completed(m, id, value);
    assert forall|k: ItemId| set.contains_key(k) implies (#[trigger] set[k]).id == k by {
        assert(m[k].id == k);
    }
    let cut = m.remove(id);
    assert forall|k: ItemId| cut.contains_key(k) implies (#[trigger] cut[k]).id == k by {
        assert(m[k].id == k);
    }
}

/// Whether `stores` and `ids` record a run of additions: each identifier
/// was not a key before its addition and is the one new key after it.
pub open spec fn is_insert_run(stores: Seq<Map<ItemId, ItemView>>, ids: Seq<ItemId>) -> bool {
    &&& stores.len() == ids.len() + 1
    &&& forall|k: int|
        0 <= k < ids.len() ==> !(#[trigger] stores[k]).contains_key(ids[k]) && stores[k + 1].dom()
            == stores[k].dom().insert(ids[k])
}

/// In a run of additions, an identifier stays a key once it was added.
proof fn lemma_insert_run_keeps(
    stores: Seq<Map<ItemId, ItemView>>,
    ids: Seq<ItemId>,
    i: int,
    j: int,
)
    requires
        is_insert_run(stores, ids),
        0 <= i < j <= ids.len(),
    ensures
        stores[j].contains_key(ids[i]),
    decreases j - i,
{
    let before = stores[j - 1];
    assert(stores[j].dom() == before.dom().insert(ids[j - 1]));
    if i < j - 1 {
        lemma_insert_run_keeps(stores, ids, i, j - 1);
    }
    assert(stores[j].dom().contains(ids[i]));
}

/// The identifiers of a run of additions are pairwise distinct.
pub proof fn lemma_inserted_ids_distinct(stores: Seq<Map<ItemId, ItemView>>, ids: Seq<ItemId>)
    requires
        is_insert_run(stores, ids),
    ensures
        ids.no_duplicates(),
{
    assert forall|i: int, j: int| 0 <= i < ids.len() && 0 <= j < ids.len() && i != j implies ids[i]
        != ids[j] by {
        if i < j {
            lemma_insert_run_keeps(stores, ids, i, j);
            assert(!stores[j].contains_key(ids[j]));
        } else {
            lemma_insert_run_keeps(stores, ids, j, i);
            assert(!stores[i].contains_key(ids[i]));
        }
    }
}

} // verus!
