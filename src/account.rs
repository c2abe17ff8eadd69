use vstd::prelude::*;

use crate::constants::NFT_STAKE_MAX_COUNT;
use crate::error::StakingError;
use crate::key::{lemma_key_eq, Key};

verus! {

/// The counter shared by the whole pool: how many items are staked over all
/// ledger records.
#[derive(Clone, Copy, Debug, PartialEq, Eq, Structural)]
pub struct GlobalPool {
    pub total_nft_count: u64,
}

/// One owner's ledger record. Only the first `item_count` slots of
/// `nft_mint_list` and `rarity_list` are meaningful.
#[derive(Clone, Copy, Debug, PartialEq, Eq)]
pub struct UserPool {
    pub owner: Key,
    pub rand: Key,
    pub item_count: u8,
    pub nft_mint_list: [Key; NFT_STAKE_MAX_COUNT],
    pub rarity_list: [u8; NFT_STAKE_MAX_COUNT],
    pub reward_time: i64,
    /// 0: active, 1: passive for seven days, 2: passive for thirty days.
    pub stake_mode: u8,
    pub stake_time: i64,
    pub reward_amount: u64,
}

/// Base reward of a tier: what the first held item brings, or what an empty
/// record is paid.
pub open spec fn base_rate(mode: u8) -> nat {
    if mode == 0 {
        3
    } else if mode == 1 {
        5
    } else if mode == 2 {
        7
    } else {
        0
    }
}

/// What the first held item adds on top of the base rate: its rarity, in the
/// passive tiers only.
pub open spec fn first_item_bonus(mode: u8, rarities: Seq<u8>) -> nat {
    if (mode == 1 || mode == 2) && rarities.len() > 0 {
        rarities[0] as nat
    } else {
        0
    }
}

/// What each held item after the first adds.
pub open spec fn extra_item_reward(mode: u8, rarity: u8) -> nat {
    if mode == 0 {
        2
    } else if mode == 1 {
        (4 + rarity) as nat
    } else {
        (6 + rarity) as nat
    }
}

/// Sum of `extra_item_reward` over every item but the first.
pub open spec fn extra_rewards(mode: u8, rarities: Seq<u8>) -> nat
    decreases rarities.len(),
{
    if rarities.len() <= 1 {
        0
    } else {
        extra_rewards(mode, rarities.drop_last()) + extra_item_reward(mode, rarities.last())
    }
}

/// The reward of a record in tier `mode` holding items of the given rarities,
/// in order.
pub open spec fn reward_of(mode: u8, rarities: Seq<u8>) -> nat {
    base_rate(mode) + first_item_bonus(mode, rarities) + extra_rewards(mode, rarities)
}

/// `i` is the first position of `k` in `s`.
pub open spec fn is_first_index(s: Seq<Key>, k: Key, i: int) -> bool {
    &&& 0 <= i < s.len()
    &&& s[i] == k
    &&& forall|j: int| 0 <= j < i ==> s[j] != k
}

/// The first position of `k` in `s`, where `s` contains it.
pub open spec fn first_index(s: Seq<Key>, k: Key) -> int {
    choose|i: int| is_first_index(s, k, i)
}

/// There is one first position of `k` in a sequence that contains it.
pub proof fn lemma_first_index(s: Seq<Key>, k: Key, i: int)
    requires
        is_first_index(s, k, i),
    ensures
        first_index(s, k) == i,
{
    let c = first_index(s, k);
    assert(is_first_index(s, k, c));
    if c < i {
        assert(s[c] != k);
    } else if i < c {
        assert(s[i] != k);
    }
}

impl UserPool {
    /// The count of held items never exceeds the capacity.
    pub open spec fn wf(&self) -> bool {
        self.item_count as usize <= NFT_STAKE_MAX_COUNT
    }

    /// The held items, in slot order.
    pub open spec fn mints(&self) -> Seq<Key> {
        self.nft_mint_list@.take(self.item_count as int)
    }

    /// The rarities of the held items, in slot order.
    pub open spec fn rarities(&self) -> Seq<u8> {
        self.rarity_list@.take(self.item_count as int)
    }

    /// Every field but the held items is the same in `self` and `other`.
    pub open spec fn same_settings(&self, other: UserPool) -> bool {
        &&& self.owner == other.owner
        &&& self.rand == other.rand
        &&& self.reward_time == other.reward_time
        &&& self.stake_mode == other.stake_mode
        &&& self.stake_time == other.stake_time
        &&& self.reward_amount == other.reward_amount
    }

    /// `after` is `self` with `mint` of the given rarity written to the first
    /// free slot.
    pub open spec fn inserted(&self, after: UserPool, mint: Key, rarity: u8) -> bool {
        &&& after.item_count == self.item_count + 1
        &&& after.nft_mint_list@ == self.nft_mint_list@.update(self.item_count as int, mint)
        &&& after.rarity_list@ == self.rarity_list@.update(self.item_count as int, rarity)
        &&& after.same_settings(*self)
    }

    /// `after` is `self` with slot `i` dropped: the last held item moves into
    /// slot `i` unless `i` is the last slot, and the count goes down by one.
    pub open spec fn removed_at(&self, after: UserPool, i: int) -> bool {
        let last = self.item_count - 1;
        &&& after.item_count == last
        &&& after.nft_mint_list@ == (if i == last {
            self.nft_mint_list@
        } else {
            self.nft_mint_list@.update(i, self.nft_mint_list@[last])
        })
        &&& after.rarity_list@ == (if i == last {
            self.rarity_list@
        } else {
            self.rarity_list@.update(i, self.rarity_list@[last])
        })
        &&& after.same_settings(*self)
    }

    /// Writes `nft_mint` with its rarity to the first free slot and returns
    /// the new count; refused when the record is full.
    pub fn add_nft(&mut self, nft_mint: Key, rarity: u8) -> (r: Result<u8, StakingError>)
        requires
            old(self).wf(),
        ensures
            final(self).wf(),
            (old(self).item_count as usize) < NFT_STAKE_MAX_COUNT ==> {
                &&& old(self).inserted(*final(self), nft_mint, rarity)
                &&& final(self).mints() == old(self).mints().push(nft_mint)
                &&& final(self).rarities() == old(self).rarities().push(rarity)
                &&& r == Ok::<u8, StakingError>(final(self).item_count)
            },
            (old(self).item_count as usize) >= NFT_STAKE_MAX_COUNT ==> {
                &&& r == Err::<u8, StakingError>(StakingError::CapacityExceeded)
                &&& *final(self) == *old(self)
            },
    {
        if (self.item_count as usize) >= NFT_STAKE_MAX_COUNT {
            return Err(StakingError::CapacityExceeded);
        }
        let c = self.item_count as usize;
        self.nft_mint_list[c] = nft_mint;
        self.rarity_list[c] = rarity;
        self.item_count = self.item_count + 1;
        proof {
            assert(self.mints() =~= old(self).mints().push(nft_mint));
            assert(self.rarities() =~= old(self).rarities().push(rarity));
        }
        Ok(self.item_count)
    }
    /// Withdraws the first slot holding `nft_mint` by moving the last held
    /// item into it, and returns the new count. Refused when `owner` is not
    /// the record's owner, or when the record does not hold `nft_mint`.
    pub fn remove_nft(&mut self, owner: Key, nft_mint: Key) -> (r: Result<u8, StakingError>)
        requires
            old(self).wf(),
        ensures
            final(self).wf(),
            old(self).owner != owner ==> {
                &&& r == Err::<u8, StakingError>(StakingError::NotOwner)
                &&& *final(self) == *old(self)
            },
            old(self).owner == owner && !old(self).mints().contains(nft_mint) ==> {
                &&& r == Err::<u8, StakingError>(StakingError::ItemNotFound)
                &&& *final(self) == *old(self)
            },
            old(self).owner == owner && old(self).mints().contains(nft_mint) ==> {
                &&& old(self).removed_at(*final(self), first_index(old(self).mints(), nft_mint))
                &&& r == Ok::<u8, StakingError>(final(self).item_count)
            },
    {
        let same_owner = self.owner == owner;
        proof {
            lemma_key_eq(self.owner, owner);
        }
        if !same_owner {
            return Err(StakingError::NotOwner);
        }
        let count = self.item_count;
        let mut i: usize = 0;
        while i < count as usize
            invariant
                0 <= i <= count,
                count == self.item_count,
                self.wf(),
                *self == *old(self),
                self.owner == owner,
                forall|j: int| 0 <= j < i ==> self.mints()[j] != nft_mint,
            decreases count - i,
        {
            let hit = self.nft_mint_list[i] == nft_mint;
            proof {
                lemma_key_eq(self.nft_mint_list@[i as int], nft_mint);
            }
            if hit {
                proof {
                    assert(self.mints()[i as int] == nft_mint);
                    lemma_first_index(old(self).mints(), nft_mint, i as int);
                }
                let last = (count - 1) as usize;
                if i != last {
                    self.nft_mint_list[i] = self.nft_mint_list[last];
                    self.rarity_list[i] = self.rarity_list[last];
                }
                self.item_count = count - 1;
                return Ok(self.item_count);
            }
            i = i + 1;
        }
        proof {
            assert forall|j: int| 0 <= j < old(self).mints().len() implies old(self).mints()[j]
                != nft_mint by {}
        }
        Err(StakingError::ItemNotFound)
    }
    /// Computes the reward of the record from its tier and the rarities of
    /// the items it holds now, and records `now` as the reward checkpoint.
    pub fn calc_reward(&mut self, now: i64) -> (r: Result<u64, StakingError>)
        requires
            old(self).wf(),
        ensures
            *final(self) == (UserPool { reward_time: now, ..*old(self) }),
            reward_of(old(self).stake_mode, old(self).rarities()) <= u64::MAX,
            r == Ok::<u64, StakingError>(
                reward_of(old(self).stake_mode, old(self).rarities()) as u64,
            ),
    {
        let mode = self.stake_mode;
        let count = self.item_count as usize;
        let ghost rs = self.rarities();
        let mut total_reward: u64 = 0;
        if mode == 0 {
            total_reward = 3;
        } else if mode == 1 {
            total_reward = 5;
            if count != 0 {
                total_reward = total_reward + self.rarity_list[0] as u64;
            }
        } else if mode == 2 {
            total_reward = 7;
            if count != 0 {
                total_reward = total_reward + self.rarity_list[0] as u64;
            }
        }
        assert(total_reward == base_rate(mode) + first_item_bonus(mode, rs));
        if count >= 1 {
            let mut i: usize = 1;
            assert(extra_rewards(mode, rs.take(1)) == 0);
            while i < count
                invariant
                    1 <= i <= count,
                    count == self.item_count,
                    count <= NFT_STAKE_MAX_COUNT,
                    mode == self.stake_mode,
                    rs == self.rarities(),
                    *self == *old(self),
                    total_reward <= 262 + 261 * i,
                    total_reward == base_rate(mode) + first_item_bonus(mode, rs) + extra_rewards(
                        mode,
                        rs.take(i as int),
                    ),
                decreases count - i,
            {
                proof {
                    assert(rs.take(i + 1).drop_last() =~= rs.take(i as int));
                    assert(rs.take(i + 1).last() == self.rarity_list@[i as int]);
                }
                if mode == 0 {
                    total_reward = total_reward + 2;
                } else if mode == 1 {
                    total_reward = total_reward + 4 + self.rarity_list[i] as u64;
                } else {
                    total_reward = total_reward + 6 + self.rarity_list[i] as u64;
                }
                i = i + 1;
            }
            assert(rs.take(count as int) =~= rs);
        }
        self.reward_time = now;
        Ok(total_reward)
    }
}

} // verus!
