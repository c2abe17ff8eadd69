use vstd::prelude::*;

use crate::account::{GlobalPool, UserPool};
use crate::constants::NFT_STAKE_MAX_COUNT;
use crate::key::Key;

verus! {

/// How many items the given records hold together.
pub open spec fn total_items(records: Seq<UserPool>) -> nat
    decreases records.len(),
{
    if records.len() == 0 {
        0
    } else {
        total_items(records.drop_last()) + records.last().item_count as nat
    }
}

/// Changing one record changes the total by the change of its count.
pub proof fn lemma_total_items_update(records: Seq<UserPool>, j: int, p: UserPool)
    requires
        0 <= j < records.len(),
    ensures
        total_items(records.update(j, p)) + records[j].item_count == total_items(records)
            + p.item_count,
    decreases records.len(),
{
    let u = records.update(j, p);
    if j == records.len() - 1 {
        assert(u.drop_last() =~= records.drop_last());
    } else {
        assert(u.drop_last() =~= records.drop_last().update(j, p));
        lemma_total_items_update(records.drop_last(), j, p);
    }
}

/// Starting from an empty record, each successful insertion of a run of at
/// most capacity many items writes the next item: afterwards the count is
/// the number of insertions, after the k-th insertion the count is k (so
/// `add_nft` returned `Ok(k)`), and the held items and rarities are the
/// inserted ones, in order.
pub proof fn lemma_insert_run(
    pools: Seq<UserPool>,
    mints: Seq<Key>,
    rarities: Seq<u8>,
)
    requires
        mints.len() <= NFT_STAKE_MAX_COUNT,
        rarities.len() == mints.len(),
        pools.len() == mints.len() + 1,
        pools[0].item_count == 0,
        forall|k: int|
            0 <= k < mints.len() ==> #[trigger] pools[k].inserted(
                pools[k + 1],
                mints[k],
                rarities[k],
            ),
    ensures
        pools.last().item_count == mints.len(),
        forall|k: int| 0 <= k < pools.len() ==> #[trigger] pools[k].item_count == k,
        pools.last().mints() == mints,
        pools.last().rarities() == rarities,
    decreases mints.len(),
{
    let n = mints.len() as int;
    if n == 0 {
        assert(pools.last().mints() =~= mints);
        assert(pools.last().rarities() =~= rarities);
    } else {
        lemma_insert_run(pools.drop_last(), mints.drop_last(), rarities.drop_last());
        let before = pools[n - 1];
        let after = pools[n];
        assert(before.inserted(after, mints[n - 1], rarities[n - 1]));
        assert(pools.drop_last().last() == before);
        assert(before.item_count == n - 1);
        assert(after.nft_mint_list@.len() == NFT_STAKE_MAX_COUNT);
        assert(after.rarity_list@.len() == NFT_STAKE_MAX_COUNT);
        assert forall|k: int| 0 <= k < n implies after.mints()[k] == mints[k] by {
            if k < n - 1 {
                assert(before.mints()[k] == mints.drop_last()[k]);
            }
        }
        assert forall|k: int| 0 <= k < n implies after.rarities()[k] == rarities[k] by {
            if k < n - 1 {
                assert(before.rarities()[k] == rarities.drop_last()[k]);
            }
        }
        assert(after.mints() =~= mints);
        assert(after.rarities() =~= rarities);
        assert forall|k: int| 0 <= k < pools.len() implies #[trigger] pools[k].item_count == k by {
            if k < n {
                assert(pools.drop_last()[k] == pools[k]);
            }
        }
    }
}

/// A deposit into any one record, counted in the global counter, keeps the
/// counter equal to the total number of items held by all records.
pub proof fn lemma_deposit_keeps_total(
    records: Seq<UserPool>,
    global_pool: GlobalPool,
    j: int,
    after: UserPool,
    global_after: GlobalPool,
    mint: Key,
    rarity: u8,
)
    requires
        0 <= j < records.len(),
        global_pool.total_nft_count == total_items(records),
        records[j].inserted(after, mint, rarity),
        global_after.total_nft_count == global_pool.total_nft_count + 1,
    ensures
        global_after.total_nft_count == total_items(records.update(j, after)),
{
    lemma_total_items_update(records, j, after);
}

/// A withdrawal from any one record, uncounted in the global counter, keeps
/// the counter equal to the total number of items held by all records.
pub proof fn lemma_withdrawal_keeps_total(
    records: Seq<UserPool>,
    global_pool: GlobalPool,
    j: int,
    i: int,
    after: UserPool,
    global_after: GlobalPool,
)
    requires
        0 <= j < records.len(),
        global_pool.total_nft_count == total_items(records),
        records[j].removed_at(after, i),
        global_after.total_nft_count == global_pool.total_nft_count - 1,
    ensures
        global_after.total_nft_count == total_items(records.update(j, after)),
{
    lemma_total_items_update(records, j, after);
}

/// Removing the only held item empties the record and moves nothing: both
/// slot arrays stay as they were.
pub proof fn lemma_remove_only_item(p: UserPool, after: UserPool)
    requires
        p.item_count == 1,
        p.removed_at(after, 0),
    ensures
        after.item_count == 0,
        after.mints() == Seq::<Key>::empty(),
        after.nft_mint_list == p.nft_mint_list,
        after.rarity_list == p.rarity_list,
{
    assert(after.mints() =~= Seq::<Key>::empty());
}

/// Removing a held item that is not the last one moves the last held item
/// into its slot and shortens the list by one: the held items become the old
/// ones with slot `i` overwritten by the old last one, without the old last
/// slot.
pub proof fn lemma_remove_relocates_last(p: UserPool, after: UserPool, i: int)
    requires
        p.wf(),
        0 <= i < p.item_count - 1,
        p.removed_at(after, i),
    ensures
        after.item_count == p.item_count - 1,
        after.mints() == p.mints().update(i, p.mints().last()).drop_last(),
        after.rarities() == p.rarities().update(i, p.rarities().last()).drop_last(),
        after.mints()[i] == p.mints().last(),
        forall|k: int| 0 <= k < after.item_count && k != i ==> after.mints()[k] == p.mints()[k],
{
    assert(after.mints() =~= p.mints().update(i, p.mints().last()).drop_last());
    assert(after.rarities() =~= p.rarities().update(i, p.rarities().last()).drop_last());
}

/// A run of deposits into record `j`, each counted in the global counter,
/// keeps the counter equal to the total number of items held by all records.
pub proof fn lemma_deposit_run_keeps_total(
    records: Seq<UserPool>,
    j: int,
    pools: Seq<UserPool>,
    globals: Seq<GlobalPool>,
    mints: Seq<Key>,
    rarities: Seq<u8>,
)
    requires
        0 <= j < records.len(),
        rarities.len() == mints.len(),
        pools.len() == mints.len() + 1,
        globals.len() == mints.len() + 1,
        pools[0] == records[j],
        globals[0].total_nft_count == total_items(records),
        forall|k: int|
            0 <= k < mints.len() ==> #[trigger] pools[k].inserted(
                pools[k + 1],
                mints[k],
                rarities[k],
            ),
        forall|k: int|
            0 <= k < mints.len() ==> #[trigger] globals[k + 1].total_nft_count
                == globals[k].total_nft_count + 1,
    ensures
        globals.last().total_nft_count == total_items(records.update(j, pools.last())),
    decreases mints.len(),
{
    let n = mints.len() as int;
    if n == 0 {
        assert(records.update(j, pools[0]) =~= records);
    } else {
        lemma_deposit_run_keeps_total(
            records,
            j,
            pools.drop_last(),
            globals.drop_last(),
            mints.drop_last(),
            rarities.drop_last(),
        );
        let mid = records.update(j, pools[n - 1]);
        assert(pools[n - 1].inserted(pools[n], mints[n - 1], rarities[n - 1]));
        assert(globals[n].total_nft_count == globals[n - 1].total_nft_count + 1);
        lemma_deposit_keeps_total(
            mid,
            globals[n - 1],
            j,
            pools[n],
            globals[n],
            mints[n - 1],
            rarities[n - 1],
        );
        assert(mid.update(j, pools[n]) =~= records.update(j, pools[n]));
    }
}

/// The held items of a record paired with their rarities, in slot order.
pub open spec fn held(p: UserPool) -> Seq<(Key, u8)> {
    Seq::new(p.item_count as nat, |j: int| (p.nft_mint_list@[j], p.rarity_list@[j]))
}

/// Removing the held item in slot `i` takes exactly that item and its
/// rarity out of the record's holdings, counted with multiplicity: nothing
/// else is lost, duplicated or added.
pub proof fn lemma_remove_takes_one(p: UserPool, after: UserPool, i: int)
    requires
        p.wf(),
        0 <= i < p.item_count,
        p.removed_at(after, i),
    ensures
        held(after).to_multiset() == held(p).to_multiset().remove(held(p)[i]),
{
    broadcast use vstd::multiset::group_multiset_axioms;

    let s = held(p);
    let last = p.item_count - 1;
    if i == last {
        assert(held(after) =~= s.remove(last));
        vstd::seq_lib::to_multiset_remove(s, last);
    } else {
        let x = s[last];
        let y = s[i];
        let t = s.update(i, x);
        assert(held(after) =~= t.remove(last));
        vstd::seq_lib::to_multiset_remove(t, last);
        vstd::seq_lib::to_multiset_update(s, i, x);
        vstd::seq_lib::to_multiset_contains(s, y);
        assert(s.to_multiset().insert(x).remove(y).remove(x) =~= s.to_multiset().remove(y));
    }
}

} // verus!
