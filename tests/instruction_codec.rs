use staking::error::StakingError;
use staking::instruction::StakingInstruction;
use staking::key::Pubkey;

fn init_pool() -> StakingInstruction {
    StakingInstruction::InitStakingPool {
        supply: 1_000_000_000,
        duration: 86_400,
        earliest_reward_claim_time: 42,
        bump_seed_staking_program: 254,
        pool_owner_authority: Pubkey([7; 32]),
        admin_authority: Pubkey([9; 32]),
    }
}

fn all_instructions() -> Vec<StakingInstruction> {
    vec![
        init_pool(),
        StakingInstruction::CreateStakeAccount,
        StakingInstruction::Deposit(u64::MAX),
        StakingInstruction::Withdraw(0),
        StakingInstruction::ClaimReward,
    ]
}

#[test]
fn deposit_encodes_to_known_bytes() {
    let bytes = StakingInstruction::Deposit(1_000_000).pack();
    assert_eq!(bytes, vec![2, 64, 66, 15, 0, 0, 0, 0, 0]);
    assert_eq!(
        StakingInstruction::unpack(&bytes),
        Ok(StakingInstruction::Deposit(1_000_000))
    );
}

#[test]
fn single_byte_decodes_create_stake_account() {
    assert_eq!(
        StakingInstruction::unpack(&[1]),
        Ok(StakingInstruction::CreateStakeAccount)
    );
}

#[test]
fn empty_input_is_malformed() {
    assert_eq!(
        StakingInstruction::unpack(&[]),
        Err(StakingError::MalformedInstruction)
    );
}

#[test]
fn init_pool_with_short_fields_is_malformed() {
    for n in 0..89 {
        let mut data = vec![0u8];
        data.extend(std::iter::repeat(3u8).take(n));
        assert_eq!(
            StakingInstruction::unpack(&data),
            Err(StakingError::MalformedInstruction),
            "{} field bytes",
            n
        );
    }
    let mut data = vec![0u8];
    data.extend(std::iter::repeat(3u8).take(73));
    assert_eq!(
        StakingInstruction::unpack(&data),
        Err(StakingError::MalformedInstruction)
    );
}

#[test]
fn init_pool_layout() {
    let bytes = init_pool().pack();
    assert_eq!(bytes.len(), 90);
    assert_eq!(bytes[0], 0);
    assert_eq!(&bytes[1..9], &1_000_000_000u64.to_le_bytes());
    assert_eq!(&bytes[9..17], &86_400u64.to_le_bytes());
    assert_eq!(&bytes[17..25], &42u64.to_le_bytes());
    assert_eq!(bytes[25], 254);
    assert_eq!(&bytes[26..58], &[7u8; 32]);
    assert_eq!(&bytes[58..90], &[9u8; 32]);
}

#[test]
fn every_instruction_round_trips() {
    for ins in all_instructions() {
        let bytes = ins.pack();
        assert_eq!(StakingInstruction::unpack(&bytes), Ok(ins));
    }
}

#[test]
fn truncated_instruction_is_malformed() {
    for ins in all_instructions() {
        let bytes = ins.pack();
        for cut in 1..=bytes.len() {
            assert_eq!(
                StakingInstruction::unpack(&bytes[..bytes.len() - cut]),
                Err(StakingError::MalformedInstruction)
            );
        }
    }
}

#[test]
fn trailing_byte_is_malformed() {
    for ins in all_instructions() {
        for extra in [0u8, 1, 255] {
            let mut bytes = ins.pack();
            bytes.push(extra);
            assert_eq!(
                StakingInstruction::unpack(&bytes),
                Err(StakingError::MalformedInstruction)
            );
        }
    }
}

#[test]
fn unknown_tags_are_malformed() {
    for tag in 5..=255u8 {
        assert_eq!(
            StakingInstruction::unpack(&[tag]),
            Err(StakingError::MalformedInstruction)
        );
        assert_eq!(
            StakingInstruction::unpack(&[tag, 0, 0, 0, 0, 0, 0, 0, 0]),
            Err(StakingError::MalformedInstruction)
        );
    }
}

#[test]
fn withdraw_reads_little_endian_amount() {
    let data = [3u8, 1, 2, 3, 4, 5, 6, 7, 8];
    assert_eq!(
        StakingInstruction::unpack(&data),
        Ok(StakingInstruction::Withdraw(0x0807060504030201))
    );
}
