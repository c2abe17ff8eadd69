use vstd::prelude::*;

use crate::account::{first_index, reward_of, GlobalPool, UserPool};
use crate::constants::NFT_STAKE_MAX_COUNT;
use crate::error::StakingError;
use crate::key::{lemma_key_eq, Key};

verus! {

/// 10 to the power `d`.
pub open spec fn pow10(d: nat) -> nat
    decreases d,
{
    if d == 0 {
        1
    } else {
        10 * pow10((d - 1) as nat)
    }
}

/// A larger exponent never gives a smaller power of ten.
pub proof fn lemma_pow10_monotone(a: nat, b: nat)
    requires
        a <= b,
    ensures
        pow10(a) <= pow10(b),
    decreases b,
{
    if a < b {
        lemma_pow10_monotone(a, (b - 1) as nat);
    }
}

/// The global counter of a new deployment: nothing staked.
pub fn initialize() -> (g: GlobalPool)
    ensures
        g.total_nft_count == 0,
{
    GlobalPool { total_nft_count: 0 }
}

/// A new, empty ledger record for `owner`, addressed by `rand`, in tier
/// `stake_mode`, staked and checkpointed at `now`.
pub fn init_user_pool(owner: Key, rand: Key, stake_mode: u8, now: i64) -> (p: UserPool)
    ensures
        p.wf(),
        p.owner == owner,
        p.rand == rand,
        p.item_count == 0,
        p.stake_mode == stake_mode,
        p.stake_time == now,
        p.reward_time == now,
        p.reward_amount == 0,
{
    let empty = Key::new([0u8; 32]);
    UserPool {
        owner,
        rand,
        item_count: 0,
        nft_mint_list: [empty; NFT_STAKE_MAX_COUNT],
        rarity_list: [0u8; NFT_STAKE_MAX_COUNT],
        reward_time: now,
        stake_mode,
        stake_time: now,
        reward_amount: 0,
    }
}

/// Lets through the record's owner only.
pub fn authorize(user_pool: &UserPool, caller: Key) -> (r: Result<(), StakingError>)
    ensures
        r == (if user_pool.owner == caller {
            Ok::<(), StakingError>(())
        } else {
            Err::<(), StakingError>(StakingError::NotOwner)
        }),
{
    let same = user_pool.owner == caller;
    proof {
        lemma_key_eq(user_pool.owner, caller);
    }
    if same {
        Ok(())
    } else {
        Err(StakingError::NotOwner)
    }
}

/// Deposits `nft_mint` with its rarity into the caller's record and counts it
/// in the global counter. Checks, in order: the caller owns the record, the
/// record has room, the counter has room. A refusal changes nothing.
pub fn stake_nft(
    user_pool: &mut UserPool,
    global_pool: &mut GlobalPool,
    caller: Key,
    nft_mint: Key,
    rarity: u8,
) -> (r: Result<(), StakingError>)
    requires
        old(user_pool).wf(),
    ensures
        final(user_pool).wf(),
        old(user_pool).owner != caller ==> r == Err::<(), StakingError>(StakingError::NotOwner),
        old(user_pool).owner == caller && (old(user_pool).item_count as usize)
            >= NFT_STAKE_MAX_COUNT ==> r == Err::<(), StakingError>(
            StakingError::CapacityExceeded,
        ),
        old(user_pool).owner == caller && (old(user_pool).item_count as usize) < NFT_STAKE_MAX_COUNT
            && old(global_pool).total_nft_count == u64::MAX ==> r == Err::<(), StakingError>(
            StakingError::Overflow,
        ),
        r is Err ==> *final(user_pool) == *old(user_pool) && *final(global_pool) == *old(
            global_pool,
        ),
        old(user_pool).owner == caller && (old(user_pool).item_count as usize) < NFT_STAKE_MAX_COUNT
            && old(global_pool).total_nft_count < u64::MAX ==> {
            &&& r == Ok::<(), StakingError>(())
            &&& old(user_pool).inserted(*final(user_pool), nft_mint, rarity)
            &&& final(global_pool).total_nft_count == old(global_pool).total_nft_count + 1
        },
{
    match authorize(user_pool, caller) {
        Ok(()) => {},
        Err(e) => {
            return Err(e);
        },
    }
    let mut updated = *user_pool;
    match updated.add_nft(nft_mint, rarity) {
        Ok(_) => {},
        Err(e) => {
            return Err(e);
        },
    }
    if global_pool.total_nft_count == u64::MAX {
        return Err(StakingError::Overflow);
    }
    *user_pool = updated;
    global_pool.total_nft_count = global_pool.total_nft_count + 1;
    Ok(())
}

/// Withdraws `nft_mint` from the caller's record and uncounts it in the
/// global counter. Checks, in order: the caller owns the record, the record
/// holds the item, the counter is not zero. A refusal changes nothing.
pub fn unstake_nft(
    user_pool: &mut UserPool,
    global_pool: &mut GlobalPool,
    caller: Key,
    nft_mint: Key,
) -> (r: Result<(), StakingError>)
    requires
        old(user_pool).wf(),
    ensures
        final(user_pool).wf(),
        old(user_pool).owner != caller ==> r == Err::<(), StakingError>(StakingError::NotOwner),
        old(user_pool).owner == caller && !old(user_pool).mints().contains(nft_mint) ==> r
            == Err::<(), StakingError>(StakingError::ItemNotFound),
        old(user_pool).owner == caller && old(user_pool).mints().contains(nft_mint) && old(
            global_pool,
        ).total_nft_count == 0 ==> r == Err::<(), StakingError>(StakingError::Overflow),
        r is Err ==> *final(user_pool) == *old(user_pool) && *final(global_pool) == *old(
            global_pool,
        ),
        old(user_pool).owner == caller && old(user_pool).mints().contains(nft_mint) && old(
            global_pool,
        ).total_nft_count > 0 ==> {
            &&& r == Ok::<(), StakingError>(())
            &&& old(user_pool).removed_at(
                *final(user_pool),
                first_index(old(user_pool).mints(), nft_mint),
            )
            &&& final(global_pool).total_nft_count == old(global_pool).total_nft_count - 1
        },
{
    match authorize(user_pool, caller) {
        Ok(()) => {},
        Err(e) => {
            return Err(e);
        },
    }
    let mut updated = *user_pool;
    match updated.remove_nft(caller, nft_mint) {
        Ok(_) => {},
        Err(e) => {
            return Err(e);
        },
    }
    if global_pool.total_nft_count == 0 {
        return Err(StakingError::Overflow);
    }
    *user_pool = updated;
    global_pool.total_nft_count = global_pool.total_nft_count - 1;
    Ok(())
}

/// Scales a reward in whole units to the smallest units of a token with
/// `decimals` decimal places; refused when the result does not fit.
pub fn scale_reward(reward: u64, decimals: u8) -> (r: Result<u64, StakingError>)
    ensures
        reward * pow10(decimals as nat) <= u64::MAX ==> r == Ok::<u64, StakingError>(
            (reward * pow10(decimals as nat)) as u64,
        ),
        reward * pow10(decimals as nat) > u64::MAX ==> r == Err::<u64, StakingError>(
            StakingError::Overflow,
        ),
{
    let mut acc: u64 = reward;
    let mut i: u8 = 0;
    assert(pow10(0) == 1);
    while i < decimals
        invariant
            0 <= i <= decimals,
            acc == reward * pow10(i as nat),
        decreases decimals - i,
    {
        proof {
            assert(reward * pow10((i + 1) as nat) == (reward * pow10(i as nat)) * 10)
                by (nonlinear_arith)
                requires
                    pow10((i + 1) as nat) == 10 * pow10(i as nat),
            ;
        }
        match acc.checked_mul(10) {
            Some(v) => {
                acc = v;
            },
            None => {
                proof {
                    lemma_pow10_monotone((i + 1) as nat, decimals as nat);
                    let a = pow10((i + 1) as nat);
                    let b = pow10(decimals as nat);
                    assert(reward * a <= reward * b) by (nonlinear_arith)
                        requires
                            a <= b,
                    ;
                }
                return Err(StakingError::Overflow);
            },
        }
        i = i + 1;
    }
    Ok(acc)
}

/// Settles the reward of the caller's record: computes it from the record's
/// tier and held items, scales it to a token with `decimals` decimal places,
/// stores it as the pending reward amount and `now` as the checkpoint, and
/// returns it. A refusal changes nothing.
pub fn get_reward(user_pool: &mut UserPool, caller: Key, now: i64, decimals: u8) -> (r: Result<
    u64,
    StakingError,
>)
    requires
        old(user_pool).wf(),
    ensures
        old(user_pool).owner != caller ==> r == Err::<u64, StakingError>(StakingError::NotOwner),
        old(user_pool).owner == caller && reward_of(old(user_pool).stake_mode, old(user_pool).rarities())
            * pow10(decimals as nat) > u64::MAX ==> r == Err::<u64, StakingError>(
            StakingError::Overflow,
        ),
        r is Err ==> *final(user_pool) == *old(user_pool),
        old(user_pool).owner == caller && reward_of(old(user_pool).stake_mode, old(user_pool).rarities())
            * pow10(decimals as nat) <= u64::MAX ==> {
            let v = reward_of(old(user_pool).stake_mode, old(user_pool).rarities()) * pow10(
                decimals as nat,
            );
            &&& r == Ok::<u64, StakingError>(v as u64)
            &&& *final(user_pool) == (UserPool {
                reward_time: now,
                reward_amount: v as u64,
                ..*old(user_pool)
            })
        },
{
    match authorize(user_pool, caller) {
        Ok(()) => {},
        Err(e) => {
            return Err(e);
        },
    }
    let mut settled = *user_pool;
    let reward = match settled.calc_reward(now) {
        Ok(v) => v,
        Err(e) => {
            return Err(e);
        },
    };
    let scaled = match scale_reward(reward, decimals) {
        Ok(v) => v,
        Err(e) => {
            return Err(e);
        },
    };
    user_pool.reward_time = now;
    user_pool.reward_amount = scaled;
    Ok(scaled)
}

} // verus!
