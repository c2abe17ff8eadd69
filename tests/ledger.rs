use daddy_staking::account::{GlobalPool, UserPool};
use daddy_staking::constants::NFT_STAKE_MAX_COUNT;
use daddy_staking::error::StakingError;
use daddy_staking::key::Key;
use daddy_staking::staking::{
    authorize, get_reward, init_user_pool, initialize, scale_reward, stake_nft, unstake_nft,
};

fn key(b: u8) -> Key {
    Key::new([b; 32])
}

fn pool(mode: u8) -> UserPool {
    init_user_pool(key(1), key(2), mode, 100)
}

fn pool_with(mode: u8, rarities: &[u8]) -> UserPool {
    let mut p = pool(mode);
    for (i, r) in rarities.iter().enumerate() {
        p.add_nft(key(10 + i as u8), *r).unwrap();
    }
    p
}

#[test]
fn new_record_is_empty_and_checkpointed() {
    let p = init_user_pool(key(1), key(2), 1, 1234);
    assert_eq!(p.owner, key(1));
    assert_eq!(p.rand, key(2));
    assert_eq!(p.item_count, 0);
    assert_eq!(p.stake_mode, 1);
    assert_eq!(p.stake_time, 1234);
    assert_eq!(p.reward_time, 1234);
    assert_eq!(p.reward_amount, 0);
    assert_eq!(initialize().total_nft_count, 0);
}

#[test]
fn keys_compare_by_bytes() {
    let mut b = [7u8; 32];
    assert!(Key::new(b) == key(7));
    b[31] = 8;
    assert!(Key::new(b) != key(7));
    assert_eq!(Key::new(b).to_bytes(), b);
}

#[test]
fn inserts_count_up_and_keep_order() {
    let mut p = pool(0);
    for i in 0..NFT_STAKE_MAX_COUNT as u8 {
        assert_eq!(p.add_nft(key(10 + i), i), Ok(i + 1));
    }
    assert_eq!(p.item_count as usize, NFT_STAKE_MAX_COUNT);
    for i in 0..NFT_STAKE_MAX_COUNT {
        assert_eq!(p.nft_mint_list[i], key(10 + i as u8));
        assert_eq!(p.rarity_list[i], i as u8);
    }
}

#[test]
fn insert_into_full_record_is_refused_unchanged() {
    let mut p = pool_with(1, &[1, 2, 3, 4, 5, 6, 7, 8, 9, 10]);
    let before = p;
    assert_eq!(p.add_nft(key(99), 3), Err(StakingError::CapacityExceeded));
    assert_eq!(p, before);
}

#[test]
fn duplicate_insert_is_accepted() {
    let mut p = pool(0);
    assert_eq!(p.add_nft(key(5), 1), Ok(1));
    assert_eq!(p.add_nft(key(5), 2), Ok(2));
}

#[test]
fn remove_absent_item_is_refused_unchanged() {
    let mut p = pool_with(1, &[4, 1]);
    let before = p;
    assert_eq!(p.remove_nft(key(1), key(77)), Err(StakingError::ItemNotFound));
    assert_eq!(p, before);
}

#[test]
fn remove_by_other_caller_is_refused_unchanged() {
    let mut p = pool_with(1, &[4, 1]);
    let before = p;
    assert_eq!(p.remove_nft(key(3), key(10)), Err(StakingError::NotOwner));
    assert_eq!(p, before);
}

#[test]
fn remove_only_item_leaves_slots_alone() {
    let mut p = pool_with(2, &[9]);
    let before = p;
    assert_eq!(p.remove_nft(key(1), key(10)), Ok(0));
    assert_eq!(p.item_count, 0);
    assert_eq!(p.nft_mint_list, before.nft_mint_list);
    assert_eq!(p.rarity_list, before.rarity_list);
}

#[test]
fn remove_moves_last_item_into_gap() {
    let mut p = pool_with(1, &[3, 4, 5]);
    assert_eq!(p.remove_nft(key(1), key(10)), Ok(2));
    assert_eq!(p.item_count, 2);
    assert_eq!(p.nft_mint_list[0], key(12));
    assert_eq!(p.rarity_list[0], 5);
    assert_eq!(p.nft_mint_list[1], key(11));
    assert_eq!(p.rarity_list[1], 4);
}

#[test]
fn remove_last_item_moves_nothing() {
    let mut p = pool_with(1, &[3, 4, 5]);
    assert_eq!(p.remove_nft(key(1), key(12)), Ok(2));
    assert_eq!(p.nft_mint_list[0], key(10));
    assert_eq!(p.nft_mint_list[1], key(11));
    assert_eq!(p.rarity_list[0], 3);
    assert_eq!(p.rarity_list[1], 4);
}

#[test]
fn remove_takes_first_of_duplicates() {
    let mut p = pool(1);
    p.add_nft(key(5), 1).unwrap();
    p.add_nft(key(6), 2).unwrap();
    p.add_nft(key(5), 3).unwrap();
    assert_eq!(p.remove_nft(key(1), key(5)), Ok(2));
    assert_eq!(p.nft_mint_list[0], key(5));
    assert_eq!(p.rarity_list[0], 3);
    assert_eq!(p.nft_mint_list[1], key(6));
}

#[test]
fn active_reward_empty_and_three_items() {
    let mut p = pool(0);
    assert_eq!(p.calc_reward(500), Ok(3));
    assert_eq!(p.reward_time, 500);
    let mut p = pool_with(0, &[9, 9, 9]);
    assert_eq!(p.calc_reward(500), Ok(7));
}

#[test]
fn passive7_reward_two_items() {
    let mut p = pool_with(1, &[4, 1]);
    assert_eq!(p.calc_reward(1), Ok(14));
}

#[test]
fn passive30_reward_one_item() {
    let mut p = pool_with(2, &[9]);
    assert_eq!(p.calc_reward(1), Ok(16));
}

#[test]
fn empty_passive_records_get_base_rate() {
    assert_eq!(pool(1).calc_reward(1), Ok(5));
    assert_eq!(pool(2).calc_reward(1), Ok(7));
}

#[test]
fn unknown_tier_pays_only_extra_items() {
    let mut p = pool_with(3, &[4, 1]);
    assert_eq!(p.calc_reward(1), Ok(7));
}

#[test]
fn largest_reward_fits() {
    let mut p = pool_with(2, &[255; 10]);
    assert_eq!(p.calc_reward(1), Ok(7 + 255 + 9 * (6 + 255)));
}

#[test]
fn calc_reward_changes_only_checkpoint() {
    let mut p = pool_with(1, &[4, 1]);
    let before = p;
    p.calc_reward(999).unwrap();
    assert_eq!(p, UserPool { reward_time: 999, ..before });
}

#[test]
fn scale_reward_by_decimals() {
    assert_eq!(scale_reward(16, 0), Ok(16));
    assert_eq!(scale_reward(16, 6), Ok(16_000_000));
    assert_eq!(scale_reward(1, 19), Ok(10_000_000_000_000_000_000));
    assert_eq!(scale_reward(2, 19), Err(StakingError::Overflow));
    assert_eq!(scale_reward(1, 20), Err(StakingError::Overflow));
    assert_eq!(scale_reward(0, 255), Ok(0));
}

#[test]
fn authorize_only_owner() {
    let p = pool(0);
    assert_eq!(authorize(&p, key(1)), Ok(()));
    assert_eq!(authorize(&p, key(2)), Err(StakingError::NotOwner));
}

#[test]
fn stake_counts_globally() {
    let mut p = pool(1);
    let mut g = initialize();
    assert_eq!(stake_nft(&mut p, &mut g, key(1), key(10), 5), Ok(()));
    assert_eq!(stake_nft(&mut p, &mut g, key(1), key(11), 2), Ok(()));
    assert_eq!(p.item_count, 2);
    assert_eq!(g.total_nft_count, 2);
    let mut q = init_user_pool(key(3), key(4), 0, 0);
    assert_eq!(stake_nft(&mut q, &mut g, key(3), key(12), 1), Ok(()));
    assert_eq!(g.total_nft_count, p.item_count as u64 + q.item_count as u64);
    assert_eq!(unstake_nft(&mut p, &mut g, key(1), key(10)), Ok(()));
    assert_eq!(g.total_nft_count, p.item_count as u64 + q.item_count as u64);
}

#[test]
fn stake_refusals_change_nothing() {
    let mut p = pool_with(1, &[1, 2, 3, 4, 5, 6, 7, 8, 9, 10]);
    let mut g = GlobalPool { total_nft_count: 10 };
    let (bp, bg) = (p, g);
    assert_eq!(stake_nft(&mut p, &mut g, key(1), key(50), 1), Err(StakingError::CapacityExceeded));
    assert_eq!((p, g), (bp, bg));
    assert_eq!(stake_nft(&mut p, &mut g, key(9), key(50), 1), Err(StakingError::NotOwner));
    assert_eq!((p, g), (bp, bg));
    let mut e = pool(1);
    let mut full = GlobalPool { total_nft_count: u64::MAX };
    let (be, bf) = (e, full);
    assert_eq!(stake_nft(&mut e, &mut full, key(1), key(50), 1), Err(StakingError::Overflow));
    assert_eq!((e, full), (be, bf));
}

#[test]
fn unstake_refusals_change_nothing() {
    let mut p = pool_with(1, &[4, 1]);
    let mut g = GlobalPool { total_nft_count: 2 };
    let (bp, bg) = (p, g);
    assert_eq!(unstake_nft(&mut p, &mut g, key(9), key(10)), Err(StakingError::NotOwner));
    assert_eq!((p, g), (bp, bg));
    assert_eq!(unstake_nft(&mut p, &mut g, key(1), key(77)), Err(StakingError::ItemNotFound));
    assert_eq!((p, g), (bp, bg));
    let mut zero = GlobalPool { total_nft_count: 0 };
    assert_eq!(unstake_nft(&mut p, &mut zero, key(1), key(10)), Err(StakingError::Overflow));
    assert_eq!(p, bp);
    assert_eq!(zero.total_nft_count, 0);
}

#[test]
fn get_reward_stores_scaled_amount() {
    let mut p = pool_with(1, &[4, 1]);
    let before = p;
    assert_eq!(get_reward(&mut p, key(1), 777, 9), Ok(14_000_000_000));
    assert_eq!(p, UserPool { reward_time: 777, reward_amount: 14_000_000_000, ..before });
}

#[test]
fn get_reward_refusals_change_nothing() {
    let mut p = pool_with(1, &[4, 1]);
    let before = p;
    assert_eq!(get_reward(&mut p, key(9), 777, 9), Err(StakingError::NotOwner));
    assert_eq!(p, before);
    assert_eq!(get_reward(&mut p, key(1), 777, 19), Err(StakingError::Overflow));
    assert_eq!(p, before);
}

#[test]
fn deposit_two_withdraw_first_scenario() {
    let mut p = init_user_pool(key(1), key(2), 1, 0);
    let mut g = initialize();
    let a = key(20);
    let b = key(21);
    stake_nft(&mut p, &mut g, key(1), a, 5).unwrap();
    stake_nft(&mut p, &mut g, key(1), b, 2).unwrap();
    assert_eq!(p.item_count, 2);
    assert_eq!(get_reward(&mut p, key(1), 10, 0), Ok(16));
    unstake_nft(&mut p, &mut g, key(1), a).unwrap();
    assert_eq!(p.item_count, 1);
    assert_eq!(p.nft_mint_list[0], b);
    assert_eq!(p.rarity_list[0], 2);
    assert_eq!(get_reward(&mut p, key(1), 20, 0), Ok(7));
    assert_eq!(g.total_nft_count, 1);
}

#[test]
fn full_record_refused_before_counter() {
    let mut p = pool_with(1, &[1, 2, 3, 4, 5, 6, 7, 8, 9, 10]);
    let mut g = GlobalPool { total_nft_count: u64::MAX };
    let (bp, bg) = (p, g);
    assert_eq!(stake_nft(&mut p, &mut g, key(1), key(50), 1), Err(StakingError::CapacityExceeded));
    assert_eq!((p, g), (bp, bg));
}

#[test]
fn absent_item_refused_before_counter() {
    let mut p = pool(1);
    let mut g = initialize();
    let (bp, bg) = (p, g);
    assert_eq!(unstake_nft(&mut p, &mut g, key(1), key(10)), Err(StakingError::ItemNotFound));
    assert_eq!((p, g), (bp, bg));
}
