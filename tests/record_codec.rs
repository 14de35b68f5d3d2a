use staking::decimal::Decimal;
use staking::error::StakingError;
use staking::key::Pubkey;
use staking::state::stake_account::StakeAccount;
use staking::state::stake_account::STAKE_ACCOUNT_LEN;
use staking::state::staking_pool::StakingPool;
use staking::state::staking_pool::STAKING_POOL_LEN;
use staking::state::PROGRAM_VERSION;
use staking::state::UNINITIALIZED_VERSION;

fn stake_account() -> StakeAccount {
    StakeAccount {
        version: PROGRAM_VERSION,
        start_rate: Decimal { scaled_val: 0x0102030405060708090a0b0c0d0e0f10 },
        owner: Pubkey([0x11; 32]),
        pool_pubkey: Pubkey([0x22; 32]),
        deposited_amount: 500,
        unclaimed_reward_wads: Decimal { scaled_val: u128::MAX },
        ..StakeAccount::default()
    }
}

fn staking_pool() -> StakingPool {
    StakingPool {
        version: PROGRAM_VERSION,
        owner_authority: Pubkey([1; 32]),
        admin_authority: Pubkey([2; 32]),
        reward_token_pool: Pubkey([3; 32]),
        last_update: 10,
        end_time: 20,
        earliest_reward_claim_time: 30,
        duration: 40,
        rate_per_slot: Decimal { scaled_val: 1_000_000_000_000_000_000 },
        cumulative_rate: Decimal { scaled_val: 7 },
        pool_size: 50,
        bump_seed_staking_program: 253,
        ..StakingPool::default()
    }
}

#[test]
fn record_lengths() {
    assert_eq!(STAKE_ACCOUNT_LEN, 1 + 16 + 32 + 32 + 8 + 16 + 128);
    assert_eq!(STAKING_POOL_LEN, 1 + 32 * 3 + 8 * 4 + 16 * 2 + 8 + 1 + 128);
}

#[test]
fn stake_account_layout() {
    let mut buf = vec![0xAAu8; STAKE_ACCOUNT_LEN];
    stake_account().pack_into_slice(&mut buf);
    assert_eq!(buf[0], 1);
    assert_eq!(&buf[1..17], &0x0102030405060708090a0b0c0d0e0f10u128.to_le_bytes());
    assert_eq!(&buf[17..49], &[0x11; 32]);
    assert_eq!(&buf[49..81], &[0x22; 32]);
    assert_eq!(&buf[81..89], &500u64.to_le_bytes());
    assert_eq!(&buf[89..105], &[0xFF; 16]);
    assert!(buf[105..].iter().all(|b| *b == 0));
}

#[test]
fn stake_account_round_trips() {
    let mut buf = vec![0u8; STAKE_ACCOUNT_LEN];
    let a = stake_account();
    a.pack_into_slice(&mut buf);
    assert_eq!(StakeAccount::unpack_from_slice(&buf), Ok(a));
}

#[test]
fn stake_account_pack_leaves_tail() {
    let mut buf = vec![0x5Au8; STAKE_ACCOUNT_LEN + 3];
    stake_account().pack_into_slice(&mut buf);
    assert_eq!(&buf[STAKE_ACCOUNT_LEN..], &[0x5A, 0x5A, 0x5A]);
    assert_eq!(StakeAccount::unpack_from_slice(&buf), Ok(stake_account()));
}

#[test]
fn stake_account_reserved_is_not_kept() {
    let mut buf = vec![0u8; STAKE_ACCOUNT_LEN];
    stake_account().pack_into_slice(&mut buf);
    for b in buf[105..].iter_mut() {
        *b = 0x77;
    }
    let a = StakeAccount::unpack_from_slice(&buf).unwrap();
    assert_eq!(a.reserve_fields1, [0; 32]);
    assert_eq!(a.reserve_fields4, [0; 32]);
    assert_eq!(a, stake_account());
}

#[test]
fn stake_account_truncated_is_too_small() {
    let mut buf = vec![0u8; STAKE_ACCOUNT_LEN];
    stake_account().pack_into_slice(&mut buf);
    for cut in 1..=STAKE_ACCOUNT_LEN {
        assert_eq!(
            StakeAccount::unpack_from_slice(&buf[..STAKE_ACCOUNT_LEN - cut]),
            Err(StakingError::BufferTooSmall)
        );
    }
}

#[test]
fn stake_account_version_gate() {
    let mut buf = vec![0u8; STAKE_ACCOUNT_LEN];
    stake_account().pack_into_slice(&mut buf);
    buf[0] = PROGRAM_VERSION + 1;
    assert_eq!(
        StakeAccount::unpack_from_slice(&buf),
        Err(StakingError::UnsupportedVersion)
    );
    buf[0] = PROGRAM_VERSION;
    assert!(StakeAccount::unpack_from_slice(&buf).is_ok());
    buf[0] = UNINITIALIZED_VERSION;
    let a = StakeAccount::unpack_from_slice(&buf).unwrap();
    assert!(!a.is_initialized());
}

#[test]
fn zeroed_stake_account_is_uninitialized() {
    let buf = vec![0u8; STAKE_ACCOUNT_LEN];
    let a = StakeAccount::unpack_from_slice(&buf).unwrap();
    assert_eq!(a, StakeAccount::default());
    assert!(!a.is_initialized());
    assert!(stake_account().is_initialized());
}

#[test]
fn staking_pool_layout() {
    let mut buf = vec![0xAAu8; STAKING_POOL_LEN];
    staking_pool().pack_into_slice(&mut buf);
    assert_eq!(buf[0], 1);
    assert_eq!(&buf[1..33], &[1; 32]);
    assert_eq!(&buf[33..65], &[2; 32]);
    assert_eq!(&buf[65..97], &[3; 32]);
    assert_eq!(&buf[97..105], &10u64.to_le_bytes());
    assert_eq!(&buf[105..113], &20u64.to_le_bytes());
    assert_eq!(&buf[113..121], &40u64.to_le_bytes());
    assert_eq!(&buf[121..129], &30u64.to_le_bytes());
    assert_eq!(&buf[129..145], &1_000_000_000_000_000_000u128.to_le_bytes());
    assert_eq!(&buf[145..161], &7u128.to_le_bytes());
    assert_eq!(&buf[161..169], &50u64.to_le_bytes());
    assert_eq!(buf[169], 253);
    assert!(buf[170..].iter().all(|b| *b == 0));
}

#[test]
fn staking_pool_round_trips() {
    let mut buf = vec![0u8; STAKING_POOL_LEN];
    let p = staking_pool();
    p.pack_into_slice(&mut buf);
    assert_eq!(StakingPool::unpack_from_slice(&buf), Ok(p));
}

#[test]
fn staking_pool_truncated_is_too_small() {
    let mut buf = vec![0u8; STAKING_POOL_LEN];
    staking_pool().pack_into_slice(&mut buf);
    for cut in 1..=STAKING_POOL_LEN {
        assert_eq!(
            StakingPool::unpack_from_slice(&buf[..STAKING_POOL_LEN - cut]),
            Err(StakingError::BufferTooSmall)
        );
    }
}

#[test]
fn staking_pool_version_gate() {
    let mut buf = vec![0u8; STAKING_POOL_LEN];
    staking_pool().pack_into_slice(&mut buf);
    buf[0] = PROGRAM_VERSION + 1;
    assert_eq!(
        StakingPool::unpack_from_slice(&buf),
        Err(StakingError::UnsupportedVersion)
    );
    buf[0] = 255;
    assert_eq!(
        StakingPool::unpack_from_slice(&buf),
        Err(StakingError::UnsupportedVersion)
    );
    buf[0] = PROGRAM_VERSION;
    assert!(StakingPool::unpack_from_slice(&buf).unwrap().is_initialized());
    buf[0] = UNINITIALIZED_VERSION;
    assert!(!StakingPool::unpack_from_slice(&buf).unwrap().is_initialized());
}

#[test]
fn decimal_field_reads_little_endian() {
    let mut buf = vec![0u8; STAKE_ACCOUNT_LEN];
    buf[0] = 1;
    buf[1] = 0x34;
    buf[2] = 0x12;
    buf[16] = 0x80;
    let a = StakeAccount::unpack_from_slice(&buf).unwrap();
    assert_eq!(a.start_rate.scaled_val, 0x1234 | (0x80u128 << 120));
}
