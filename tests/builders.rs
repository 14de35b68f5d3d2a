use staking::instruction::claim_reward;
use staking::instruction::create_stake_account;
use staking::instruction::deposit;
use staking::instruction::init_staking_pool;
use staking::instruction::withdraw;
use staking::instruction::AccountMeta;
use staking::instruction::StakingInstruction;
use staking::key::Pubkey;

fn key(b: u8) -> Pubkey {
    Pubkey([b; 32])
}

fn solana_key(k: Pubkey) -> solana_program::pubkey::Pubkey {
    solana_program::pubkey::Pubkey::new_from_array(k.0)
}

const CLOCK: [u8; 32] = [
    6, 167, 213, 23, 24, 199, 116, 201, 40, 86, 99, 152, 105, 29, 94, 182, 139, 94, 184, 163, 155,
    75, 109, 92, 115, 85, 91, 33, 0, 0, 0, 0,
];
const RENT: [u8; 32] = [
    6, 167, 213, 23, 25, 44, 92, 81, 33, 140, 201, 76, 61, 74, 241, 127, 88, 218, 238, 8, 155, 161,
    253, 68, 227, 219, 217, 138, 0, 0, 0, 0,
];
const TOKEN: [u8; 32] = [
    6, 221, 246, 225, 215, 101, 161, 147, 217, 203, 225, 70, 206, 235, 121, 172, 28, 180, 133, 237,
    95, 91, 55, 145, 58, 140, 245, 133, 126, 255, 0, 169,
];

fn meta(k: Pubkey, is_signer: bool, is_writable: bool) -> AccountMeta {
    AccountMeta { pubkey: k, is_signer, is_writable }
}

#[test]
fn fixed_ids_match_solana() {
    assert_eq!(solana_program::sysvar::clock::id().to_bytes(), CLOCK);
    assert_eq!(solana_program::sysvar::rent::id().to_bytes(), RENT);
    assert_eq!(spl_token::id().to_bytes(), TOKEN);
}

#[test]
fn deposit_instruction() {
    let ins = deposit(key(1), 1_000_000, key(2), key(3), key(4));
    assert_eq!(ins.program_id, key(1));
    assert_eq!(
        ins.accounts,
        vec![
            meta(key(2), true, false),
            meta(key(3), false, true),
            meta(key(4), false, true),
            meta(Pubkey(CLOCK), false, false),
        ]
    );
    assert_eq!(ins.data, vec![2, 64, 66, 15, 0, 0, 0, 0, 0]);
}

#[test]
fn withdraw_instruction() {
    let ins = withdraw(key(1), 5, key(2), key(3), key(4));
    assert_eq!(ins.accounts[3], meta(Pubkey(CLOCK), false, false));
    assert_eq!(ins.accounts[0], meta(key(2), true, false));
    assert_eq!(ins.data, vec![3, 5, 0, 0, 0, 0, 0, 0, 0]);
}

#[test]
fn create_stake_account_instruction() {
    let ins = create_stake_account(key(1), key(2), key(3), key(4));
    assert_eq!(
        ins.accounts,
        vec![
            meta(key(2), false, true),
            meta(key(3), false, false),
            meta(key(4), false, false),
            meta(Pubkey(RENT), false, false),
        ]
    );
    assert_eq!(ins.data, vec![1]);
}

#[test]
fn claim_reward_instruction() {
    let program = key(1);
    let pool = key(4);
    let (derived, _) =
        solana_program::pubkey::Pubkey::find_program_address(&[&pool.0], &solana_key(program));
    let ins = claim_reward(program, key(2), key(3), pool, key(5), key(6), key(7), key(8)).unwrap();
    assert_eq!(
        ins.accounts,
        vec![
            meta(key(2), true, false),
            meta(key(3), false, true),
            meta(pool, false, true),
            meta(key(5), false, true),
            meta(key(6), false, true),
            meta(Pubkey(derived.to_bytes()), false, false),
            meta(Pubkey(CLOCK), false, false),
            meta(Pubkey(TOKEN), false, false),
            meta(key(7), false, true),
            meta(key(8), false, true),
        ]
    );
    assert_ne!(derived.to_bytes(), pool.0);
    assert_eq!(ins.data, vec![4]);
}

#[test]
fn init_staking_pool_instruction() {
    let program = key(1);
    let pool = key(5);
    let (derived, bump) =
        solana_program::pubkey::Pubkey::find_program_address(&[&pool.0], &solana_key(program));
    let ins = init_staking_pool(
        program,
        1000,
        100,
        7,
        key(2),
        key(3),
        key(4),
        pool,
        key(6),
        key(7),
        key(8),
    )
    .unwrap();
    assert_eq!(ins.program_id, program);
    assert_eq!(
        ins.accounts,
        vec![
            meta(key(2), true, false),
            meta(key(3), false, true),
            meta(key(4), false, true),
            meta(pool, false, true),
            meta(key(6), false, false),
            meta(Pubkey(derived.to_bytes()), false, false),
            meta(Pubkey(RENT), false, false),
            meta(Pubkey(TOKEN), false, false),
        ]
    );
    let expected = StakingInstruction::InitStakingPool {
        supply: 1000,
        duration: 100,
        earliest_reward_claim_time: 7,
        bump_seed_staking_program: bump,
        pool_owner_authority: key(7),
        admin_authority: key(8),
    };
    assert_eq!(ins.data, expected.pack());
    assert_eq!(StakingInstruction::unpack(&ins.data), Ok(expected));
}
